//! Building a schema from its source text.
use std::path::PathBuf;

use vstd::prelude::*;

use crate::ast::Schema;
use crate::error::{line_text, line_text_of, location_at, location_of, GenoError};
use crate::grammar::{schema, SchemaFailure};
use crate::parser::{GenoParser, ParseFailure};
use crate::text::str_to_chars;

verus! {

#[verifier::external_type_specification]
#[verifier::external_body]
pub struct ExPathBuf(PathBuf);

/// What `Path::to_string_lossy` gives for a path: its text, with any
/// invalid Unicode replaced. The conversion is only named, as a function
/// of the path.
pub uninterp spec fn path_label(path: PathBuf) -> Seq<char>;

/// Calls `Path::to_string_lossy` and takes the result as an owned `String`.
#[verifier::external_body]
fn path_text(path: &PathBuf) -> (r: String)
    ensures
        r@ == path_label(*path),
{
    path.to_string_lossy().into_owned()
}

/// What building a schema from the source text `s` gives, with `file`
/// the name of the source named in errors: the schema the text holds, or
/// a `Parse` error at the position where the text stops matching the
/// language, or a `NumberRange` error for the first out-of-range literal.
pub open spec fn build_result(s: Seq<char>, file: Seq<char>, r: Result<Schema, GenoError>) -> bool {
    match schema(s) {
        Ok(v) => r matches Ok(sc) && sc@ == v,
        Err(SchemaFailure::Syntax(pos)) => r matches Err(GenoError::Parse { content, file: f, location })
            && content@ == line_text(s, pos) && f@ == file && location == location_at(s, pos),
        Err(SchemaFailure::Range(a, b)) => r matches Err(GenoError::NumberRange { content, file: f, location })
            && content@ == s.subrange(a, b) && f@ == file && location == location_at(s, a),
    }
}

/// A Geno AST builder
pub struct GenoAstBuilder {
    file_path: PathBuf,
    file_label: String,
}

impl GenoAstBuilder {
    /// The path of the schema file.
    pub closed spec fn path(&self) -> PathBuf {
        self.file_path
    }

    /// The name of the schema file used in error messages.
    pub closed spec fn label(&self) -> Seq<char> {
        self.file_label@
    }

    /// Create a new Geno AST builder from a file path.  A file path is required
    /// in order to give meaningful error messages.
    /// Errors name the file by the path's text (`to_string_lossy`).
    pub fn new(file_path: PathBuf) -> (b: Self)
        ensures
            b.path() == file_path,
            b.label() == path_label(file_path),
    {
        let file_label = path_text(&file_path);
        Self::with_label(file_path, file_label)
    }

    /// Create a new Geno AST builder from a file path and the name of the
    /// file that errors report.
    pub fn with_label(file_path: PathBuf, file_label: String) -> (b: Self)
        ensures
            b.path() == file_path,
            b.label() == file_label@,
    {
        GenoAstBuilder { file_path, file_label }
    }

    /// The path of the schema file.
    pub fn file_path(&self) -> (p: &PathBuf)
        ensures
            *p == self.path(),
    {
        &self.file_path
    }

    /// Build the AST from the text of the schema file. No further checks are
    /// made on the AST once it is built: the rules of a separate validation
    /// step are not part of this library.
    pub fn build_from_source(&self, input: &str) -> (r: Result<Schema, GenoError>)
        requires
            input@.len() < usize::MAX,
        ensures
            build_result(input@, self.label(), r),
    {
        let cs = str_to_chars(input);
        match GenoParser::build_schema(&cs) {
            Ok(schema) => Ok(schema),
            Err(ParseFailure::Syntax(pos)) => Err(GenoError::Parse {
                content: line_text_of(&cs, pos),
                file: self.file_label.clone(),
                location: location_of(&cs, pos),
            }),
            Err(ParseFailure::Range(a, b)) => Err(GenoError::NumberRange {
                content: GenoParser::span_string(&cs, a, b),
                file: self.file_label.clone(),
                location: location_of(&cs, a),
            }),
        }
    }
}

} // verus!
