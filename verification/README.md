# geno

A schema compiler for the Geno schema language: a schema file holds a
`meta { key = value, .. }` block followed by `enum` and `struct`
declarations; the library reads it into an abstract syntax tree and
generates Rust (serde) type definitions from that tree.

Layout:

- `src/grammar.rs` states the language as functions on the characters of a
  source text (blanks and `//` comments between tokens; integer literals in
  decimal, `0x` hex or `0b` binary; string literals in double quotes).
- `src/parser.rs` parses a text, each function proved to compute what the
  corresponding grammar function states; `src/number.rs` reads integer
  literals; `src/builder.rs` holds `GenoAstBuilder` and its errors.
- Building returns the AST as parsed; no separate validation step is made
  on it (which schemas such a step would refuse is not defined here).
- `src/codegen.rs` generates Rust definitions, with the generated text
  stated exactly; `src/laws.rs` proves properties that relate the parts.
- `app/` is the program: it reads a MessagePack AST on standard input and
  prints the generated Rust code.
