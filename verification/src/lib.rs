//! A cross-language schema compiler: reads the Geno schema language into an
//! abstract syntax tree and generates type definitions from it.
//!
//! - `grammar` states the schema language as functions on the characters of
//!   a source text; `parser` computes what it states; `builder` wraps that
//!   into the AST builder and its errors.
//! - `codegen` generates Rust (serde) definitions from an AST.
pub mod ast;
pub mod builder;
pub mod codegen;
pub mod error;
pub mod grammar;
pub mod laws;
pub mod number;
pub mod parser;
pub mod text;

pub use builder::GenoAstBuilder;
pub use error::{GenoError, Location};
pub use parser::GenoParser;
