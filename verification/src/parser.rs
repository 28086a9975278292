//! The parser of the schema language: one function per construct of
//! `grammar`, each proved to compute what its grammar function states.
use vstd::prelude::*;

use crate::ast::{
    declaration_view, field_type_view, fields_view, metadata_value_view, metadata_view, variants_view,
    BuiltinType, Declaration, DeclarationView, FieldType, FieldTypeView, FloatType, IntegerType,
    IntegerValue, MetadataValue, MetadataValueView, Schema, SchemaView,
};
use crate::grammar::{self, in_run, Outcome, Run, SchemaFailure};
use crate::number::{build_array_length, build_integer_literal};
use crate::text::{push_char, str_to_chars};

verus! {

/// What a parsing function returns: the value (or the span of the first
/// out-of-range literal) and the position after the construct, or the
/// position where the text stops matching.
pub type ParseOutcome<T> = Result<(Result<T, (usize, usize)>, usize), usize>;

/// The value part of an outcome, seen through `f`.
pub open spec fn value_view<T, V>(v: Result<T, (usize, usize)>, f: spec_fn(T) -> V) -> Result<V, (int, int)> {
    match v {
        Ok(t) => Ok(f(t)),
        Err((a, b)) => Err((a as int, b as int)),
    }
}

/// An outcome seen through `f`, positions as integers.
pub open spec fn outcome_view<T, V>(r: ParseOutcome<T>, f: spec_fn(T) -> V) -> Outcome<V> {
    match r {
        Err(e) => Err(e as int),
        Ok((v, q)) => Ok((value_view(v, f), q as int)),
    }
}

pub open spec fn metadata_acc_view(acc: Result<Vec<(String, MetadataValue)>, (usize, usize)>) -> Result<Seq<(Seq<char>, MetadataValueView)>, (int, int)> {
    value_view(acc, |m: Vec<(String, MetadataValue)>| metadata_view(m@))
}

pub open spec fn variants_acc_view(acc: Result<Vec<(String, IntegerValue)>, (usize, usize)>) -> Result<Seq<(Seq<char>, IntegerValue)>, (int, int)> {
    value_view(acc, |vs: Vec<(String, IntegerValue)>| variants_view(vs@))
}

pub open spec fn fields_acc_view(acc: Result<Vec<(String, FieldType)>, (usize, usize)>) -> Result<Seq<(Seq<char>, FieldTypeView)>, (int, int)> {
    value_view(acc, |fs: Vec<(String, FieldType)>| fields_view(fs@))
}

pub open spec fn declarations_acc_view(acc: Result<Vec<Declaration>, (usize, usize)>) -> Result<Seq<DeclarationView>, (int, int)> {
    value_view(acc, |ds: Vec<Declaration>| ds@.map_values(|d: Declaration| declaration_view(d)))
}

/// Sets the value of `key` in `m`: the entry with that key is replaced in
/// place, or a new entry is added at the end.
pub fn insert_metadata(m: &mut Vec<(String, MetadataValue)>, key: String, value: MetadataValue)
    ensures
        metadata_view(final(m)@) == grammar::insert_entry(metadata_view(old(m)@), key@, metadata_value_view(value)),
{
    let ghost mv = metadata_view(m@);
    let ghost k = key@;
    let mut i: usize = 0;
    while i < m.len()
        invariant
            i <= m.len(),
            m@ == old(m)@,
            mv == metadata_view(m@),
            k == key@,
            grammar::key_index_from(mv, k, 0) == grammar::key_index_from(mv, k, i as int),
        decreases m.len() - i,
    {
        if m[i].0 == key {
            assert(mv[i as int].0 == k);
            m[i] = (key, value);
            assert(metadata_view(m@) =~= mv.update(i as int, (k, metadata_value_view(value))));
            return;
        }
        i = i + 1;
    }
    m.push((key, value));
    assert(metadata_view(m@) =~= mv.push((k, metadata_value_view(value))));
}

/// Every position an outcome holds lies within a text of length `len`.
pub open spec fn in_bounds<T>(r: ParseOutcome<T>, len: nat) -> bool {
    match r {
        Err(e) => e <= len,
        Ok((v, q)) => q <= len && (v matches Err((a, b)) ==> a <= b <= len),
    }
}

pub open spec fn pos_view(r: Result<usize, usize>) -> Result<int, int> {
    match r {
        Ok(q) => Ok(q as int),
        Err(e) => Err(e as int),
    }
}

/// Why a source text is not a schema: the position where it stops
/// matching the language, or the span of an out-of-range integer literal.
#[derive(Debug, Clone, Copy, PartialEq, Eq)]
pub enum ParseFailure {
    Syntax(usize),
    Range(usize, usize),
}

pub open spec fn failure_view(r: Result<Schema, ParseFailure>) -> Result<SchemaView, SchemaFailure> {
    match r {
        Ok(s) => Ok(s@),
        Err(ParseFailure::Syntax(p)) => Err(SchemaFailure::Syntax(p as int)),
        Err(ParseFailure::Range(a, b)) => Err(SchemaFailure::Range(a as int, b as int)),
    }
}

/// The parser of the Geno schema language.
pub struct GenoParser;

impl GenoParser {
    /// The first position at or after `p` that is not blank or comment.
    pub fn skip_trivia(cs: &Vec<char>, p: usize) -> (r: usize)
        requires
            p <= cs.len(),
        ensures
            r == grammar::skip(cs@, p as int),
            p <= r <= cs.len(),
    {
        let mut i = p;
        let mut in_comment = false;
        proof {
            grammar::lemma_trivia_end_bounds(cs@, p as int, false);
        }
        while i < cs.len()
            invariant
                p <= i <= cs.len(),
                grammar::trivia_end(cs@, p as int, false) == grammar::trivia_end(cs@, i as int, in_comment),
            decreases cs.len() - i,
        {
            let c = cs[i];
            if in_comment {
                in_comment = c != '\n';
                i = i + 1;
            } else if c == ' ' || c == '\t' || c == '\r' || c == '\n' {
                i = i + 1;
            } else if c == '/' && i + 1 < cs.len() && cs[i + 1] == '/' {
                in_comment = true;
                i = i + 2;
            } else {
                return i;
            }
        }
        i
    }

    fn char_in_run(c: char, k: &Run) -> (r: bool)
        ensures
            r == in_run(c, *k),
    {
        match k {
            Run::Ident => ('a' <= c && c <= 'z') || ('A' <= c && c <= 'Z') || ('0' <= c && c <= '9')
                || c == '_',
            Run::Dec => '0' <= c && c <= '9',
            Run::Hex => ('0' <= c && c <= '9') || ('a' <= c && c <= 'f') || ('A' <= c && c <= 'F'),
            Run::Bin => c == '0' || c == '1',
        }
    }

    /// The end of the longest run of kind `k` that starts at `p`.
    pub fn run_end(cs: &Vec<char>, p: usize, k: &Run) -> (r: usize)
        requires
            p <= cs.len(),
        ensures
            r == grammar::run_end(cs@, p as int, *k),
            p <= r <= cs.len(),
    {
        let mut i = p;
        while i < cs.len() && Self::char_in_run(cs[i], k)
            invariant
                p <= i <= cs.len(),
                grammar::run_end(cs@, p as int, *k) == grammar::run_end(cs@, i as int, *k),
            decreases cs.len() - i,
        {
            i = i + 1;
        }
        i
    }

    /// An identifier at `p`: its end.
    pub fn ident(cs: &Vec<char>, p: usize) -> (r: Result<usize, usize>)
        requires
            p <= cs.len(),
        ensures
            pos_view(r) == grammar::ident(cs@, p as int),
            r matches Ok(e) ==> p < e <= cs.len(),
            r matches Err(e) ==> e == p,
    {
        if p < cs.len() && (('a' <= cs[p] && cs[p] <= 'z') || ('A' <= cs[p] && cs[p] <= 'Z')) {
            Ok(Self::run_end(cs, p + 1, &Run::Ident))
        } else {
            Err(p)
        }
    }

    /// The character `c` at `p`.
    pub fn token(cs: &Vec<char>, p: usize, c: char) -> (r: Result<usize, usize>)
        requires
            p <= cs.len(),
        ensures
            pos_view(r) == grammar::token(cs@, p as int, c),
            r matches Ok(q) ==> q == p + 1 && q <= cs.len(),
            r matches Err(e) ==> e == p,
    {
        if p < cs.len() && cs[p] == c {
            Ok(p + 1)
        } else {
            Err(p)
        }
    }

    /// The character `c` after blanks and comments.
    pub fn tok(cs: &Vec<char>, p: usize, c: char) -> (r: Result<usize, usize>)
        requires
            p <= cs.len(),
        ensures
            pos_view(r) == grammar::tok(cs@, p as int, c),
            r matches Ok(q) ==> p < q <= cs.len(),
            r matches Err(e) ==> p <= e <= cs.len(),
    {
        Self::token(cs, Self::skip_trivia(cs, p), c)
    }

    fn prefixed_run(cs: &Vec<char>, p: usize, a: char, b: char, k: &Run) -> (r: bool)
        requires
            p <= cs.len(),
        ensures
            r == grammar::prefixed_run(cs@, p as int, a, b, *k),
    {
        cs.len() > 2 && p < cs.len() - 2 && cs[p] == a && cs[p + 1] == b && Self::char_in_run(cs[p + 2], k)
    }

    /// An integer literal at `p`: its end.
    pub fn integer_literal(cs: &Vec<char>, p: usize) -> (r: Result<usize, usize>)
        requires
            p <= cs.len(),
        ensures
            pos_view(r) == grammar::integer_literal(cs@, p as int),
            r matches Ok(e) ==> p < e <= cs.len(),
            r matches Err(e) ==> p <= e <= cs.len(),
    {
        let q = if p < cs.len() && cs[p] == '-' { p + 1 } else { p };
        if Self::prefixed_run(cs, q, '0', 'x', &Run::Hex) {
            Ok(Self::run_end(cs, q + 2, &Run::Hex))
        } else if Self::prefixed_run(cs, q, '0', 'b', &Run::Bin) {
            Ok(Self::run_end(cs, q + 2, &Run::Bin))
        } else if q < cs.len() && '0' <= cs[q] && cs[q] <= '9' {
            Ok(Self::run_end(cs, q + 1, &Run::Dec))
        } else {
            Err(q)
        }
    }

    /// A string literal at `p`: its end.
    pub fn string_literal(cs: &Vec<char>, p: usize) -> (r: Result<usize, usize>)
        requires
            p <= cs.len(),
        ensures
            pos_view(r) == grammar::string_literal(cs@, p as int),
            r matches Ok(e) ==> p < e <= cs.len(),
            r matches Err(e) ==> p <= e <= cs.len(),
    {
        if p < cs.len() && cs[p] == '"' {
            let mut i = p + 1;
            while i < cs.len() && cs[i] != '"'
                invariant
                    p < i <= cs.len(),
                    grammar::quote_end(cs@, p + 1) == grammar::quote_end(cs@, i as int),
                decreases cs.len() - i,
            {
                i = i + 1;
            }
            if i < cs.len() {
                Ok(i + 1)
            } else {
                Err(i)
            }
        } else {
            Err(p)
        }
    }

    /// Whether `cs[a..b]` is the text `lit`.
    pub fn span_is(cs: &Vec<char>, a: usize, b: usize, lit: &str) -> (r: bool)
        requires
            a <= b <= cs.len(),
        ensures
            r == (cs@.subrange(a as int, b as int) == lit@),
    {
        let l = str_to_chars(lit);
        if b - a != l.len() {
            return false;
        }
        let mut i: usize = 0;
        while i < l.len()
            invariant
                b - a == l.len(),
                a <= b <= cs.len(),
                l@ == lit@,
                i <= l.len(),
                forall|j: int| 0 <= j < i ==> cs@[a + j] == l@[j],
            decreases l.len() - i,
        {
            if cs[a + i] != l[i] {
                assert(cs@.subrange(a as int, b as int)[i as int] != lit@[i as int]);
                return false;
            }
            i = i + 1;
        }
        assert(cs@.subrange(a as int, b as int) == lit@);
        true
    }

    /// The text `cs[a..b]` as a string.
    pub fn span_string(cs: &Vec<char>, a: usize, b: usize) -> (r: String)
        requires
            a <= b <= cs.len(),
        ensures
            r@ == cs@.subrange(a as int, b as int),
    {
        let mut r = String::new();
        let mut i = a;
        while i < b
            invariant
                a <= i <= b <= cs.len(),
                r@ == cs@.subrange(a as int, i as int),
            decreases b - i,
        {
            push_char(&mut r, cs[i]);
            assert(cs@.subrange(a as int, i + 1) == cs@.subrange(a as int, i as int).push(cs@[i as int]));
            i = i + 1;
        }
        r
    }

    /// The integer type the word `cs[a..b]` names.
    pub fn build_integer_type(cs: &Vec<char>, a: usize, b: usize) -> (r: Option<IntegerType>)
        requires
            a <= b <= cs.len(),
        ensures
            r == grammar::integer_type_word(cs@.subrange(a as int, b as int)),
    {
        if Self::span_is(cs, a, b, "i8") {
            Some(IntegerType::I8)
        } else if Self::span_is(cs, a, b, "u8") {
            Some(IntegerType::U8)
        } else if Self::span_is(cs, a, b, "i16") {
            Some(IntegerType::I16)
        } else if Self::span_is(cs, a, b, "u16") {
            Some(IntegerType::U16)
        } else if Self::span_is(cs, a, b, "i32") {
            Some(IntegerType::I32)
        } else if Self::span_is(cs, a, b, "u32") {
            Some(IntegerType::U32)
        } else if Self::span_is(cs, a, b, "i64") {
            Some(IntegerType::I64)
        } else if Self::span_is(cs, a, b, "u64") {
            Some(IntegerType::U64)
        } else {
            None
        }
    }

    /// The builtin type the word `cs[a..b]` names.
    pub fn build_builtin_type(cs: &Vec<char>, a: usize, b: usize) -> (r: Option<BuiltinType>)
        requires
            a <= b <= cs.len(),
        ensures
            r == grammar::builtin_type_word(cs@.subrange(a as int, b as int)),
    {
        match Self::build_integer_type(cs, a, b) {
            Some(it) => Some(BuiltinType::Integer(it)),
            None => if Self::span_is(cs, a, b, "f32") {
                Some(BuiltinType::Float(FloatType::F32))
            } else if Self::span_is(cs, a, b, "f64") {
                Some(BuiltinType::Float(FloatType::F64))
            } else if Self::span_is(cs, a, b, "string") {
                Some(BuiltinType::String)
            } else if Self::span_is(cs, a, b, "bool") {
                Some(BuiltinType::Bool)
            } else {
                None
            },
        }
    }

    /// `ft` with its nullable flag set to `n`.
    fn set_nullable(ft: FieldType, n: bool) -> (r: FieldType)
        ensures
            field_type_view(r) == grammar::with_nullable(field_type_view(ft), n),
    {
        match ft {
            FieldType::Builtin(bt, _) => FieldType::Builtin(bt, n),
            FieldType::UserDefined(name, _) => FieldType::UserDefined(name, n),
            FieldType::Array(inner, len, _) => FieldType::Array(inner, len, n),
            FieldType::MapType(k, v, _) => FieldType::MapType(k, v, n),
        }
    }

    /// A field type at `p`, without its `?` (see `grammar::field_type_base`).
    pub fn build_field_type_base(cs: &Vec<char>, p: usize) -> (r: ParseOutcome<FieldType>)
        requires
            p <= cs.len(),
        ensures
            in_bounds(r, cs.len() as nat),
            outcome_view(r, |f: FieldType| field_type_view(f)) == grammar::field_type_base(cs@, p as int),
            r matches Ok((_, q)) ==> p <= q <= cs.len(),
            r matches Err(e) ==> e <= cs.len(),
        decreases cs.len() - p, 0int,
    {
        let ghost s = cs@;
        let p0 = Self::skip_trivia(cs, p);
        if p0 < cs.len() && cs[p0] == '[' {
            match Self::build_field_type(cs, p0 + 1) {
                Err(e) => Err(e),
                Ok((elem, q1)) => {
                    let q2 = Self::skip_trivia(cs, q1);
                    if q2 < cs.len() && cs[q2] == ';' {
                        let d0 = Self::skip_trivia(cs, q2 + 1);
                        let d1 = Self::run_end(cs, d0, &Run::Dec);
                        if d1 == d0 {
                            Err(d0)
                        } else {
                            match Self::tok(cs, d1, ']') {
                                Err(e) => Err(e),
                                Ok(q3) => {
                                    let v = match build_array_length(cs, d0, d1) {
                                        None => Err((d0, d1)),
                                        Some(n) => match elem {
                                            Err(x) => Err(x),
                                            Ok(ev) => Ok(FieldType::Array(Box::new(ev), Some(n), false)),
                                        },
                                    };
                                    Ok((v, q3))
                                },
                            }
                        }
                    } else {
                        match Self::token(cs, q2, ']') {
                            Err(e) => Err(e),
                            Ok(q3) => {
                                let v = match elem {
                                    Err(x) => Err(x),
                                    Ok(ev) => Ok(FieldType::Array(Box::new(ev), None, false)),
                                };
                                Ok((v, q3))
                            },
                        }
                    }
                },
            }
        } else if p0 < cs.len() && cs[p0] == '{' {
            let k0 = Self::skip_trivia(cs, p0 + 1);
            match Self::ident(cs, k0) {
                Err(e) => Err(e),
                Ok(k1) => match Self::build_builtin_type(cs, k0, k1) {
                    None => Err(k0),
                    Some(kt) => match Self::tok(cs, k1, ':') {
                        Err(e) => Err(e),
                        Ok(q1) => match Self::build_field_type(cs, q1) {
                            Err(e) => Err(e),
                            Ok((value, q2)) => match Self::tok(cs, q2, '}') {
                                Err(e) => Err(e),
                                Ok(q3) => {
                                    let v = match value {
                                        Err(x) => Err(x),
                                        Ok(vv) => Ok(FieldType::MapType(kt, Box::new(vv), false)),
                                    };
                                    Ok((v, q3))
                                },
                            },
                        },
                    },
                },
            }
        } else {
            match Self::ident(cs, p0) {
                Err(e) => Err(e),
                Ok(w1) => {
                    let ft = match Self::build_builtin_type(cs, p0, w1) {
                        Some(bt) => FieldType::Builtin(bt, false),
                        None => FieldType::UserDefined(Self::span_string(cs, p0, w1), false),
                    };
                    Ok((Ok(ft), w1))
                },
            }
        }
    }

    /// A field type at `p`, with an optional `?` (see `grammar::field_type`).
    pub fn build_field_type(cs: &Vec<char>, p: usize) -> (r: ParseOutcome<FieldType>)
        requires
            p <= cs.len(),
        ensures
            in_bounds(r, cs.len() as nat),
            outcome_view(r, |f: FieldType| field_type_view(f)) == grammar::field_type(cs@, p as int),
            r matches Ok((_, q)) ==> p <= q <= cs.len(),
            r matches Err(e) ==> e <= cs.len(),
        decreases cs.len() - p, 1int,
    {
        match Self::build_field_type_base(cs, p) {
            Err(e) => Err(e),
            Ok((v, q)) => match Self::tok(cs, q, '?') {
                Ok(q1) => {
                    let v2 = match v {
                        Err(x) => Err(x),
                        Ok(fv) => Ok(Self::set_nullable(fv, true)),
                    };
                    Ok((v2, q1))
                },
                Err(_) => Ok((v, q)),
            },
        }
    }

    /// `key = value` in a `meta` block (see `grammar::meta_entry`).
    pub fn build_meta_entry(cs: &Vec<char>, p: usize) -> (r: ParseOutcome<(String, MetadataValue)>)
        requires
            p <= cs.len(),
        ensures
            in_bounds(r, cs.len() as nat),
            outcome_view(r, |e: (String, MetadataValue)| (e.0@, metadata_value_view(e.1)))
                == grammar::meta_entry(cs@, p as int),
            r matches Ok((_, q)) ==> p <= q <= cs.len(),
    {
        let k0 = Self::skip_trivia(cs, p);
        match Self::ident(cs, k0) {
            Err(e) => Err(e),
            Ok(k1) => match Self::tok(cs, k1, '=') {
                Err(e) => Err(e),
                Ok(q) => {
                    let v0 = Self::skip_trivia(cs, q);
                    if v0 < cs.len() && cs[v0] == '"' {
                        match Self::string_literal(cs, v0) {
                            Err(e) => Err(e),
                            Ok(v1) => {
                                let key = Self::span_string(cs, k0, k1);
                                let value = MetadataValue::String(Self::span_string(cs, v0, v1));
                                Ok((Ok((key, value)), v1))
                            },
                        }
                    } else {
                        match Self::integer_literal(cs, v0) {
                            Err(e) => Err(e),
                            Ok(v1) => {
                                let v = match build_integer_literal(IntegerType::I64, cs, v0, v1) {
                                    Some(iv) => Ok((Self::span_string(cs, k0, k1), MetadataValue::Integer(iv))),
                                    None => Err((v0, v1)),
                                };
                                Ok((v, v1))
                            },
                        }
                    }
                },
            },
        }
    }

    /// `name = literal` in an enum whose base type is `t`.
    pub fn build_enum_variant(cs: &Vec<char>, p: usize, t: IntegerType) -> (r: ParseOutcome<(String, IntegerValue)>)
        requires
            p <= cs.len(),
        ensures
            in_bounds(r, cs.len() as nat),
            outcome_view(r, |v: (String, IntegerValue)| (v.0@, v.1)) == grammar::enum_variant(cs@, p as int, t),
            r matches Ok((_, q)) ==> p <= q <= cs.len(),
    {
        let k0 = Self::skip_trivia(cs, p);
        match Self::ident(cs, k0) {
            Err(e) => Err(e),
            Ok(k1) => match Self::tok(cs, k1, '=') {
                Err(e) => Err(e),
                Ok(q) => {
                    let v0 = Self::skip_trivia(cs, q);
                    match Self::integer_literal(cs, v0) {
                        Err(e) => Err(e),
                        Ok(v1) => {
                            let v = match build_integer_literal(t, cs, v0, v1) {
                                Some(iv) => Ok((Self::span_string(cs, k0, k1), iv)),
                                None => Err((v0, v1)),
                            };
                            Ok((v, v1))
                        },
                    }
                },
            },
        }
    }

    /// `name : type` in a struct.
    pub fn build_struct_field(cs: &Vec<char>, p: usize) -> (r: ParseOutcome<(String, FieldType)>)
        requires
            p <= cs.len(),
        ensures
            in_bounds(r, cs.len() as nat),
            outcome_view(r, |f: (String, FieldType)| (f.0@, field_type_view(f.1)))
                == grammar::struct_field(cs@, p as int),
            r matches Ok((_, q)) ==> p <= q <= cs.len(),
    {
        let k0 = Self::skip_trivia(cs, p);
        match Self::ident(cs, k0) {
            Err(e) => Err(e),
            Ok(k1) => match Self::tok(cs, k1, ':') {
                Err(e) => Err(e),
                Ok(q) => match Self::build_field_type(cs, q) {
                    Err(e) => Err(e),
                    Ok((fv, q1)) => {
                        let v = match fv {
                            Err(x) => Err(x),
                            Ok(ft) => Ok((Self::span_string(cs, k0, k1), ft)),
                        };
                        Ok((v, q1))
                    },
                },
            },
        }
    }

    /// The entries of a `meta` block from `p` up to its closing `}`.
    pub fn build_meta_entries(cs: &Vec<char>, p: usize) -> (r: ParseOutcome<Vec<(String, MetadataValue)>>)
        requires
            p <= cs.len(),
        ensures
            in_bounds(r, cs.len() as nat),
            outcome_view(r, |m: Vec<(String, MetadataValue)>| metadata_view(m@))
                == grammar::meta_entries(cs@, p as int, Ok(seq![])),
            r matches Ok((_, q)) ==> p <= q < cs.len(),
    {
        let empty: Vec<(String, MetadataValue)> = Vec::new();
        assert(metadata_view(empty@) =~= Seq::<(Seq<char>, MetadataValueView)>::empty());
        let mut acc: Result<Vec<(String, MetadataValue)>, (usize, usize)> = Ok(empty);
        let mut cur = p;
        assert(metadata_acc_view(acc) == Ok::<_, (int, int)>(Seq::<(Seq<char>, MetadataValueView)>::empty()));
        loop
            invariant
                p <= cur <= cs.len(),
                grammar::meta_entries(cs@, p as int, Ok(seq![])) == grammar::meta_entries(cs@, cur as int, metadata_acc_view(acc)),
                acc matches Err((a, b)) ==> a <= b <= cs.len(),
            decreases cs.len() - cur,
        {
            let p0 = Self::skip_trivia(cs, cur);
            if p0 < cs.len() && cs[p0] == '}' {
                return Ok((acc, p0));
            }
            match Self::build_meta_entry(cs, p0) {
                Err(e) => {
                    return Err(e);
                },
                Ok((ev, q)) => {
                    let q1 = Self::skip_trivia(cs, q);
                    let ghost before = metadata_acc_view(acc);
                    acc = match acc {
                        Err(x) => Err(x),
                        Ok(m) => match ev {
                            Err(x) => Err(x),
                            Ok((k, v)) => {
                                let mut m = m;
                                insert_metadata(&mut m, k, v);
                                Ok(m)
                            },
                        },
                    };
                    assert(metadata_acc_view(acc) == grammar::insert_value(
                        before,
                        value_view(ev, |e: (String, MetadataValue)| (e.0@, metadata_value_view(e.1))),
                    ));
                    if q1 < cs.len() && cs[q1] == ',' {
                        cur = q1 + 1;
                    } else if q1 < cs.len() && cs[q1] == '}' {
                        return Ok((acc, q1));
                    } else {
                        return Err(q1);
                    }
                },
            }
        }
    }

    /// The variants of an enum with base type `t`, up to the closing `}`.
    pub fn build_enum_variants(cs: &Vec<char>, p: usize, t: IntegerType) -> (r: ParseOutcome<Vec<(String, IntegerValue)>>)
        requires
            p <= cs.len(),
        ensures
            in_bounds(r, cs.len() as nat),
            outcome_view(r, |vs: Vec<(String, IntegerValue)>| variants_view(vs@))
                == grammar::enum_variants(cs@, p as int, t, Ok(seq![])),
            r matches Ok((_, q)) ==> p <= q < cs.len(),
    {
        let empty: Vec<(String, IntegerValue)> = Vec::new();
        assert(variants_view(empty@) =~= Seq::<(Seq<char>, IntegerValue)>::empty());
        let mut acc: Result<Vec<(String, IntegerValue)>, (usize, usize)> = Ok(empty);
        let mut cur = p;
        assert(variants_acc_view(acc) == Ok::<_, (int, int)>(Seq::<(Seq<char>, IntegerValue)>::empty()));
        loop
            invariant
                p <= cur <= cs.len(),
                grammar::enum_variants(cs@, p as int, t, Ok(seq![])) == grammar::enum_variants(cs@, cur as int, t, variants_acc_view(acc)),
                acc matches Err((a, b)) ==> a <= b <= cs.len(),
            decreases cs.len() - cur,
        {
            let p0 = Self::skip_trivia(cs, cur);
            if p0 < cs.len() && cs[p0] == '}' {
                return Ok((acc, p0));
            }
            match Self::build_enum_variant(cs, p0, t) {
                Err(e) => {
                    return Err(e);
                },
                Ok((ev, q)) => {
                    let q1 = Self::skip_trivia(cs, q);
                    let ghost before = variants_acc_view(acc);
                    acc = match acc {
                        Err(x) => Err(x),
                        Ok(vs) => match ev {
                            Err(x) => Err(x),
                            Ok(v) => {
                                let mut vs = vs;
                                let ghost old_vs = vs@;
                                vs.push(v);
                                assert(variants_view(vs@) =~= variants_view(old_vs).push((v.0@, v.1)));
                                Ok(vs)
                            },
                        },
                    };
                    assert(variants_acc_view(acc) == grammar::push_value(
                        before,
                        value_view(ev, |v: (String, IntegerValue)| (v.0@, v.1)),
                    ));
                    if q1 < cs.len() && cs[q1] == ',' {
                        cur = q1 + 1;
                    } else if q1 < cs.len() && cs[q1] == '}' {
                        return Ok((acc, q1));
                    } else {
                        return Err(q1);
                    }
                },
            }
        }
    }

    /// The fields of a struct, up to the closing `}`.
    pub fn build_struct_fields(cs: &Vec<char>, p: usize) -> (r: ParseOutcome<Vec<(String, FieldType)>>)
        requires
            p <= cs.len(),
        ensures
            in_bounds(r, cs.len() as nat),
            outcome_view(r, |fs: Vec<(String, FieldType)>| fields_view(fs@))
                == grammar::struct_fields(cs@, p as int, Ok(seq![])),
            r matches Ok((_, q)) ==> p <= q < cs.len(),
    {
        let empty: Vec<(String, FieldType)> = Vec::new();
        assert(fields_view(empty@) =~= Seq::<(Seq<char>, FieldTypeView)>::empty());
        let mut acc: Result<Vec<(String, FieldType)>, (usize, usize)> = Ok(empty);
        let mut cur = p;
        assert(fields_acc_view(acc) == Ok::<_, (int, int)>(Seq::<(Seq<char>, FieldTypeView)>::empty()));
        loop
            invariant
                p <= cur <= cs.len(),
                grammar::struct_fields(cs@, p as int, Ok(seq![])) == grammar::struct_fields(cs@, cur as int, fields_acc_view(acc)),
                acc matches Err((a, b)) ==> a <= b <= cs.len(),
            decreases cs.len() - cur,
        {
            let p0 = Self::skip_trivia(cs, cur);
            if p0 < cs.len() && cs[p0] == '}' {
                return Ok((acc, p0));
            }
            match Self::build_struct_field(cs, p0) {
                Err(e) => {
                    return Err(e);
                },
                Ok((fv, q)) => {
                    let q1 = Self::skip_trivia(cs, q);
                    let ghost before = fields_acc_view(acc);
                    let ghost fvv = value_view(fv, |f: (String, FieldType)| (f.0@, field_type_view(f.1)));
                    acc = match acc {
                        Err(x) => Err(x),
                        Ok(fs) => match fv {
                            Err(x) => Err(x),
                            Ok(f) => {
                                let mut fs = fs;
                                let ghost old_fs = fs@;
                                let ghost fview = (f.0@, field_type_view(f.1));
                                fs.push(f);
                                assert(fields_view(fs@) =~= fields_view(old_fs).push(fview));
                                Ok(fs)
                            },
                        },
                    };
                    assert(fields_acc_view(acc) == grammar::push_value(before, fvv));
                    if q1 < cs.len() && cs[q1] == ',' {
                        cur = q1 + 1;
                    } else if q1 < cs.len() && cs[q1] == '}' {
                        return Ok((acc, q1));
                    } else {
                        return Err(q1);
                    }
                },
            }
        }
    }

    /// A `meta { .. }` block at `p`: its entries.
    pub fn build_meta_decl(cs: &Vec<char>, p: usize) -> (r: ParseOutcome<Vec<(String, MetadataValue)>>)
        requires
            p <= cs.len(),
        ensures
            in_bounds(r, cs.len() as nat),
            outcome_view(r, |m: Vec<(String, MetadataValue)>| metadata_view(m@))
                == grammar::meta_decl(cs@, p as int),
            r matches Ok((_, q)) ==> p < q <= cs.len(),
    {
        let k0 = Self::skip_trivia(cs, p);
        match Self::ident(cs, k0) {
            Err(e) => Err(e),
            Ok(k1) => if !Self::span_is(cs, k0, k1, "meta") {
                Err(k0)
            } else {
                match Self::tok(cs, k1, '{') {
                    Err(e) => Err(e),
                    Ok(q) => match Self::build_meta_entries(cs, q) {
                        Err(e) => Err(e),
                        Ok((m, q1)) => Ok((m, q1 + 1)),
                    },
                }
            },
        }
    }

    /// The base type of an enum after its name (see `grammar::enum_base_type`).
    pub fn build_enum_base_type(cs: &Vec<char>, p: usize) -> (r: Result<(IntegerType, usize), usize>)
        requires
            p <= cs.len(),
        ensures
            (match r {
                Ok((t, q)) => grammar::enum_base_type(cs@, p as int) == Ok::<_, int>((t, q as int)),
                Err(e) => grammar::enum_base_type(cs@, p as int) == Err::<(IntegerType, int), _>(e as int),
            }),
            r matches Ok((_, q)) ==> p <= q <= cs.len(),
            r matches Err(e) ==> e <= cs.len(),
    {
        match Self::tok(cs, p, ':') {
            Ok(q) => {
                let t0 = Self::skip_trivia(cs, q);
                match Self::ident(cs, t0) {
                    Err(e) => Err(e),
                    Ok(t1) => match Self::build_integer_type(cs, t0, t1) {
                        None => Err(t0),
                        Some(it) => Ok((it, t1)),
                    },
                }
            },
            Err(_) => Ok((IntegerType::I32, p)),
        }
    }

    /// An enum declaration after the keyword `enum`.
    pub fn build_enum_decl(cs: &Vec<char>, p: usize) -> (r: ParseOutcome<Declaration>)
        requires
            p <= cs.len(),
        ensures
            in_bounds(r, cs.len() as nat),
            outcome_view(r, |d: Declaration| declaration_view(d)) == grammar::enum_rest(cs@, p as int),
            r matches Ok((_, q)) ==> p < q <= cs.len(),
    {
        let n0 = Self::skip_trivia(cs, p);
        match Self::ident(cs, n0) {
            Err(e) => Err(e),
            Ok(n1) => match Self::build_enum_base_type(cs, n1) {
                Err(e) => Err(e),
                Ok((t, q)) => match Self::tok(cs, q, '{') {
                    Err(e) => Err(e),
                    Ok(q1) => match Self::build_enum_variants(cs, q1, t) {
                        Err(e) => Err(e),
                        Ok((vs, q2)) => {
                            let v = match vs {
                                Err(x) => Err(x),
                                Ok(vs) => Ok(Declaration::Enum {
                                    ident: Self::span_string(cs, n0, n1),
                                    base_type: t,
                                    variants: vs,
                                }),
                            };
                            Ok((v, q2 + 1))
                        },
                    },
                },
            },
        }
    }

    /// A struct declaration after the keyword `struct`.
    pub fn build_struct_decl(cs: &Vec<char>, p: usize) -> (r: ParseOutcome<Declaration>)
        requires
            p <= cs.len(),
        ensures
            in_bounds(r, cs.len() as nat),
            outcome_view(r, |d: Declaration| declaration_view(d)) == grammar::struct_rest(cs@, p as int),
            r matches Ok((_, q)) ==> p < q <= cs.len(),
    {
        let n0 = Self::skip_trivia(cs, p);
        match Self::ident(cs, n0) {
            Err(e) => Err(e),
            Ok(n1) => match Self::tok(cs, n1, '{') {
                Err(e) => Err(e),
                Ok(q1) => match Self::build_struct_fields(cs, q1) {
                    Err(e) => Err(e),
                    Ok((fs, q2)) => {
                        let v = match fs {
                            Err(x) => Err(x),
                            Ok(fs) => Ok(Declaration::Struct { ident: Self::span_string(cs, n0, n1), fields: fs }),
                        };
                        Ok((v, q2 + 1))
                    },
                },
            },
        }
    }

    /// A declaration at `p`: `enum ..` or `struct ..`.
    pub fn build_declaration(cs: &Vec<char>, p: usize) -> (r: ParseOutcome<Declaration>)
        requires
            p <= cs.len(),
        ensures
            in_bounds(r, cs.len() as nat),
            outcome_view(r, |d: Declaration| declaration_view(d)) == grammar::declaration(cs@, p as int),
            r matches Ok((_, q)) ==> p < q <= cs.len(),
    {
        let w0 = Self::skip_trivia(cs, p);
        match Self::ident(cs, w0) {
            Err(e) => Err(e),
            Ok(w1) => if Self::span_is(cs, w0, w1, "enum") {
                Self::build_enum_decl(cs, w1)
            } else if Self::span_is(cs, w0, w1, "struct") {
                Self::build_struct_decl(cs, w1)
            } else {
                Err(w0)
            },
        }
    }

    /// The declarations from `p` to the end of the text.
    pub fn build_declarations(cs: &Vec<char>, p: usize) -> (r: ParseOutcome<Vec<Declaration>>)
        requires
            p <= cs.len(),
        ensures
            in_bounds(r, cs.len() as nat),
            outcome_view(r, |ds: Vec<Declaration>| ds@.map_values(|d: Declaration| declaration_view(d)))
                == grammar::declarations(cs@, p as int, Ok(seq![])),
    {
        let empty: Vec<Declaration> = Vec::new();
        assert(empty@.map_values(|d: Declaration| declaration_view(d)) =~= Seq::<DeclarationView>::empty());
        let mut acc: Result<Vec<Declaration>, (usize, usize)> = Ok(empty);
        let mut cur = p;
        loop
            invariant
                p <= cur <= cs.len(),
                grammar::declarations(cs@, p as int, Ok(seq![])) == grammar::declarations(cs@, cur as int, declarations_acc_view(acc)),
                acc matches Err((a, b)) ==> a <= b <= cs.len(),
            decreases cs.len() - cur,
        {
            let p0 = Self::skip_trivia(cs, cur);
            if p0 >= cs.len() {
                return Ok((acc, p0));
            }
            match Self::build_declaration(cs, p0) {
                Err(e) => {
                    return Err(e);
                },
                Ok((dv, q)) => {
                    let ghost before = declarations_acc_view(acc);
                    let ghost dvv = value_view(dv, |d: Declaration| declaration_view(d));
                    acc = match acc {
                        Err(x) => Err(x),
                        Ok(ds) => match dv {
                            Err(x) => Err(x),
                            Ok(d) => {
                                let mut ds = ds;
                                let ghost old_ds = ds@;
                                let ghost d_view = declaration_view(d);
                                ds.push(d);
                                assert(ds@.map_values(|d: Declaration| declaration_view(d))
                                    =~= old_ds.map_values(|d: Declaration| declaration_view(d)).push(d_view));
                                Ok(ds)
                            },
                        },
                    };
                    assert(declarations_acc_view(acc) == grammar::push_value(before, dvv));
                    cur = q;
                },
            }
        }
    }

    /// A whole schema: a `meta` block, then declarations to the end of the
    /// text (see `grammar::schema`).
    pub fn build_schema(cs: &Vec<char>) -> (r: Result<Schema, ParseFailure>)
        ensures
            failure_view(r) == grammar::schema(cs@),
            r matches Err(ParseFailure::Syntax(pos)) ==> pos <= cs.len(),
            r matches Err(ParseFailure::Range(a, b)) ==> a <= b <= cs.len(),
    {
        match Self::build_meta_decl(cs, 0) {
            Err(e) => Err(ParseFailure::Syntax(e)),
            Ok((mv, q)) => match Self::build_declarations(cs, q) {
                Err(e) => Err(ParseFailure::Syntax(e)),
                Ok((dv, _)) => match mv {
                    Err((a, b)) => Err(ParseFailure::Range(a, b)),
                    Ok(metadata) => match dv {
                        Err((a, b)) => Err(ParseFailure::Range(a, b)),
                        Ok(declarations) => Ok(Schema { metadata, declarations }),
                    },
                },
            },
        }
    }
}

} // verus!
