//! The schema language, stated as functions on the character sequence of a
//! source text. Positions are indices into that sequence.
//!
//! Each syntactic function takes a position and returns either `Err(q)`, the
//! position at which the text stops matching, or `Ok((v, q))` with the
//! position `q` after the construct. For constructs that hold integer
//! literals, `v` is itself a `Result`: `Err((a, b))` names the first literal
//! `s[a..b]` (in the order in which a schema is built) whose value does not
//! fit the type it is read as.
use vstd::prelude::*;

use crate::ast::{
    BuiltinType, DeclarationView, FieldTypeView, FloatType, IntegerType, IntegerValue, MetadataValueView,
    SchemaView,
};
use crate::number::{array_length_value, literal_value};

verus! {

/// A syntactic outcome: the value (or the first out-of-range literal) and the
/// position after the construct, or the position where the text fails.
pub type Outcome<V> = Result<(Result<V, (int, int)>, int), int>;

// ---------------------------------------------------------------------------
// Lexical level
// ---------------------------------------------------------------------------

pub open spec fn is_space(c: char) -> bool {
    c == ' ' || c == '\t' || c == '\r' || c == '\n'
}

/// The end of the blanks and `//` comments (to the end of their line) that
/// start at `p`; `in_comment` says whether `p` lies inside a comment.
pub open spec fn trivia_end(s: Seq<char>, p: int, in_comment: bool) -> int
    decreases s.len() - p,
{
    if p < 0 || p >= s.len() {
        p
    } else if in_comment {
        trivia_end(s, p + 1, s[p] != '\n')
    } else if is_space(s[p]) {
        trivia_end(s, p + 1, false)
    } else if s[p] == '/' && p + 1 < s.len() && s[p + 1] == '/' {
        trivia_end(s, p + 2, true)
    } else {
        p
    }
}

/// The first position at or after `p` that is not blank or comment.
pub open spec fn skip(s: Seq<char>, p: int) -> int {
    trivia_end(s, p, false)
}

pub proof fn lemma_trivia_end_bounds(s: Seq<char>, p: int, in_comment: bool)
    requires
        0 <= p <= s.len(),
    ensures
        p <= trivia_end(s, p, in_comment) <= s.len(),
    decreases s.len() - p,
{
    if p < s.len() {
        if in_comment {
            lemma_trivia_end_bounds(s, p + 1, s[p] != '\n');
        } else if is_space(s[p]) {
            lemma_trivia_end_bounds(s, p + 1, false);
        } else if s[p] == '/' && p + 1 < s.len() && s[p + 1] == '/' {
            lemma_trivia_end_bounds(s, p + 2, true);
        }
    }
}

pub open spec fn is_alpha(c: char) -> bool {
    ('a' <= c <= 'z') || ('A' <= c <= 'Z')
}

pub open spec fn is_dec_digit(c: char) -> bool {
    '0' <= c <= '9'
}

pub open spec fn is_hex_digit(c: char) -> bool {
    is_dec_digit(c) || ('a' <= c <= 'f') || ('A' <= c <= 'F')
}

pub open spec fn is_bin_digit(c: char) -> bool {
    c == '0' || c == '1'
}

/// Identifiers start with an ASCII letter and go on with ASCII letters,
/// digits and `_`.
pub open spec fn is_ident_char(c: char) -> bool {
    is_alpha(c) || is_dec_digit(c) || c == '_'
}

/// The kinds of character runs: identifier tail, decimal, hex, binary digits.
#[derive(Clone, Copy)]
pub enum Run {
    Ident,
    Dec,
    Hex,
    Bin,
}

pub open spec fn in_run(c: char, k: Run) -> bool {
    match k {
        Run::Ident => is_ident_char(c),
        Run::Dec => is_dec_digit(c),
        Run::Hex => is_hex_digit(c),
        Run::Bin => is_bin_digit(c),
    }
}

/// The end of the longest run of kind `k` that starts at `p`.
pub open spec fn run_end(s: Seq<char>, p: int, k: Run) -> int
    decreases s.len() - p,
{
    if 0 <= p < s.len() && in_run(s[p], k) {
        run_end(s, p + 1, k)
    } else {
        p
    }
}

pub proof fn lemma_run_end_bounds(s: Seq<char>, p: int, k: Run)
    requires
        0 <= p <= s.len(),
    ensures
        p <= run_end(s, p, k) <= s.len(),
    decreases s.len() - p,
{
    if p < s.len() && in_run(s[p], k) {
        lemma_run_end_bounds(s, p + 1, k);
    }
}

/// An identifier at `p`: its end.
pub open spec fn ident(s: Seq<char>, p: int) -> Result<int, int> {
    if 0 <= p < s.len() && is_alpha(s[p]) {
        Ok(run_end(s, p + 1, Run::Ident))
    } else {
        Err(p)
    }
}

/// The character `c` at `p`: the position after it.
pub open spec fn token(s: Seq<char>, p: int, c: char) -> Result<int, int> {
    if 0 <= p < s.len() && s[p] == c {
        Ok(p + 1)
    } else {
        Err(p)
    }
}

/// Whether `s[p..]` starts with the two characters `a`, `b` followed by a
/// character of kind `k`.
pub open spec fn prefixed_run(s: Seq<char>, p: int, a: char, b: char, k: Run) -> bool {
    0 <= p && p + 2 < s.len() && s[p] == a && s[p + 1] == b && in_run(s[p + 2], k)
}

/// An integer literal at `p`: an optional `-`, then `0x` and hex digits,
/// `0b` and binary digits, or decimal digits. Its end.
pub open spec fn integer_literal(s: Seq<char>, p: int) -> Result<int, int> {
    let q = if 0 <= p < s.len() && s[p] == '-' { p + 1 } else { p };
    if prefixed_run(s, q, '0', 'x', Run::Hex) {
        Ok(run_end(s, q + 2, Run::Hex))
    } else if prefixed_run(s, q, '0', 'b', Run::Bin) {
        Ok(run_end(s, q + 2, Run::Bin))
    } else if 0 <= q < s.len() && is_dec_digit(s[q]) {
        Ok(run_end(s, q, Run::Dec))
    } else {
        Err(q)
    }
}

/// The first `"` at or after `p`, or the end of the text.
pub open spec fn quote_end(s: Seq<char>, p: int) -> int
    decreases s.len() - p,
{
    if 0 <= p < s.len() && s[p] != '"' {
        quote_end(s, p + 1)
    } else {
        p
    }
}

pub proof fn lemma_quote_end_bounds(s: Seq<char>, p: int)
    requires
        0 <= p <= s.len(),
    ensures
        p <= quote_end(s, p) <= s.len(),
        quote_end(s, p) < s.len() ==> s[quote_end(s, p)] == '"',
    decreases s.len() - p,
{
    if p < s.len() && s[p] != '"' {
        lemma_quote_end_bounds(s, p + 1);
    }
}

/// A string literal at `p`: a `"`, any characters but `"`, and a `"`. Its end.
pub open spec fn string_literal(s: Seq<char>, p: int) -> Result<int, int> {
    if 0 <= p < s.len() && s[p] == '"' {
        let q = quote_end(s, p + 1);
        if q < s.len() {
            Ok(q + 1)
        } else {
            Err(q)
        }
    } else {
        Err(p)
    }
}

/// The character `c`, after blanks and comments: the position after it.
pub open spec fn tok(s: Seq<char>, p: int, c: char) -> Result<int, int> {
    token(s, skip(s, p), c)
}

pub proof fn lemma_skip_bounds(s: Seq<char>, p: int)
    requires
        0 <= p <= s.len(),
    ensures
        p <= skip(s, p) <= s.len(),
{
    lemma_trivia_end_bounds(s, p, false);
}

// ---------------------------------------------------------------------------
// Words
// ---------------------------------------------------------------------------

/// The integer type a word names.
pub open spec fn integer_type_word(w: Seq<char>) -> Option<IntegerType> {
    if w == "i8"@ {
        Some(IntegerType::I8)
    } else if w == "u8"@ {
        Some(IntegerType::U8)
    } else if w == "i16"@ {
        Some(IntegerType::I16)
    } else if w == "u16"@ {
        Some(IntegerType::U16)
    } else if w == "i32"@ {
        Some(IntegerType::I32)
    } else if w == "u32"@ {
        Some(IntegerType::U32)
    } else if w == "i64"@ {
        Some(IntegerType::I64)
    } else if w == "u64"@ {
        Some(IntegerType::U64)
    } else {
        None
    }
}

/// The builtin type a word names.
pub open spec fn builtin_type_word(w: Seq<char>) -> Option<BuiltinType> {
    match integer_type_word(w) {
        Some(it) => Some(BuiltinType::Integer(it)),
        None => if w == "f32"@ {
            Some(BuiltinType::Float(FloatType::F32))
        } else if w == "f64"@ {
            Some(BuiltinType::Float(FloatType::F64))
        } else if w == "string"@ {
            Some(BuiltinType::String)
        } else if w == "bool"@ {
            Some(BuiltinType::Bool)
        } else {
            None
        },
    }
}

pub proof fn lemma_ident_bounds(s: Seq<char>, p: int)
    requires
        0 <= p <= s.len(),
    ensures
        ident(s, p) matches Ok(e) ==> p < e <= s.len(),
        ident(s, p) matches Err(e) ==> e == p,
{
    if 0 <= p < s.len() && is_alpha(s[p]) {
        lemma_run_end_bounds(s, p + 1, Run::Ident);
    }
}

// ---------------------------------------------------------------------------
// Field types
// ---------------------------------------------------------------------------

/// `v` with its nullable flag set to `n`.
pub open spec fn with_nullable(v: FieldTypeView, n: bool) -> FieldTypeView {
    match v {
        FieldTypeView::Builtin(bt, _) => FieldTypeView::Builtin(bt, n),
        FieldTypeView::UserDefined(name, _) => FieldTypeView::UserDefined(name, n),
        FieldTypeView::Array(inner, len, _) => FieldTypeView::Array(inner, len, n),
        FieldTypeView::MapType(k, v, _) => FieldTypeView::MapType(k, v, n),
    }
}

/// A field type at `p` (after blanks and comments), without its `?`:
/// `[ T ]`, `[ T ; N ]`, `{ B : T }`, a builtin type name, or any other
/// identifier (a user-defined type). An array's length is read before its
/// element type.
pub open spec fn field_type_base(s: Seq<char>, p: int) -> Outcome<FieldTypeView>
    decreases s.len() - p, 0int,
{
    if 0 <= p <= s.len() {
        let p0 = skip(s, p);
        proof {
            lemma_skip_bounds(s, p);
        }
        if p0 < s.len() && s[p0] == '[' {
            match field_type(s, p0 + 1) {
                Err(e) => Err(e),
                Ok((elem, q1)) => {
                    let q2 = skip(s, q1);
                    if q2 < s.len() && s[q2] == ';' {
                        let d0 = skip(s, q2 + 1);
                        let d1 = run_end(s, d0, Run::Dec);
                        if d1 == d0 {
                            Err(d0)
                        } else {
                            match tok(s, d1, ']') {
                                Err(e) => Err(e),
                                Ok(q3) => Ok((
                                    match array_length_value(s.subrange(d0, d1)) {
                                        None => Err((d0, d1)),
                                        Some(n) => match elem {
                                            Err(x) => Err(x),
                                            Ok(ev) => Ok(FieldTypeView::Array(Box::new(ev), Some(n as nat), false)),
                                        },
                                    },
                                    q3,
                                )),
                            }
                        }
                    } else {
                        match token(s, q2, ']') {
                            Err(e) => Err(e),
                            Ok(q3) => Ok((
                                match elem {
                                    Err(x) => Err(x),
                                    Ok(ev) => Ok(FieldTypeView::Array(Box::new(ev), None, false)),
                                },
                                q3,
                            )),
                        }
                    }
                },
            }
        } else if p0 < s.len() && s[p0] == '{' {
            let k0 = skip(s, p0 + 1);
            match ident(s, k0) {
                Err(e) => Err(e),
                Ok(k1) => match builtin_type_word(s.subrange(k0, k1)) {
                    None => Err(k0),
                    Some(kt) => match tok(s, k1, ':') {
                        Err(e) => Err(e),
                        Ok(q1) => {
                            proof {
                                lemma_skip_bounds(s, p0 + 1);
                                lemma_ident_bounds(s, k0);
                                lemma_skip_bounds(s, k1);
                            }
                            match field_type(s, q1) {
                                Err(e) => Err(e),
                                Ok((value, q2)) => match tok(s, q2, '}') {
                                    Err(e) => Err(e),
                                    Ok(q3) => Ok((
                                        match value {
                                            Err(x) => Err(x),
                                            Ok(vv) => Ok(FieldTypeView::MapType(kt, Box::new(vv), false)),
                                        },
                                        q3,
                                    )),
                                },
                            }
                        },
                    },
                },
            }
        } else {
            match ident(s, p0) {
                Err(e) => Err(e),
                Ok(w1) => {
                    let w = s.subrange(p0, w1);
                    Ok((
                        Ok(match builtin_type_word(w) {
                            Some(bt) => FieldTypeView::Builtin(bt, false),
                            None => FieldTypeView::UserDefined(w, false),
                        }),
                        w1,
                    ))
                },
            }
        }
    } else {
        Err(p)
    }
}

/// A field type at `p`, with an optional trailing `?` that makes it nullable.
pub open spec fn field_type(s: Seq<char>, p: int) -> Outcome<FieldTypeView>
    decreases s.len() - p, 1int,
{
    match field_type_base(s, p) {
        Err(e) => Err(e),
        Ok((v, q)) => match tok(s, q, '?') {
            Ok(q1) => Ok((
                match v {
                    Err(x) => Err(x),
                    Ok(fv) => Ok(with_nullable(fv, true)),
                },
                q1,
            )),
            Err(_) => Ok((v, q)),
        },
    }
}

pub proof fn lemma_tok_bounds(s: Seq<char>, p: int, c: char)
    requires
        0 <= p <= s.len(),
    ensures
        tok(s, p, c) matches Ok(q) ==> p < q <= s.len(),
{
    lemma_skip_bounds(s, p);
}

pub proof fn lemma_field_type_bounds(s: Seq<char>, p: int)
    requires
        0 <= p <= s.len(),
    ensures
        field_type_base(s, p) matches Ok((_, q)) ==> p <= q <= s.len(),
        field_type(s, p) matches Ok((_, q)) ==> p <= q <= s.len(),
    decreases s.len() - p,
{
    let p0 = skip(s, p);
    lemma_skip_bounds(s, p);
    if p0 < s.len() && s[p0] == '[' {
        lemma_field_type_bounds(s, p0 + 1);
        if let Ok((_, q1)) = field_type(s, p0 + 1) {
            let q2 = skip(s, q1);
            lemma_skip_bounds(s, q1);
            if q2 < s.len() && s[q2] == ';' {
                let d0 = skip(s, q2 + 1);
                lemma_skip_bounds(s, q2 + 1);
                lemma_run_end_bounds(s, d0, Run::Dec);
                lemma_tok_bounds(s, run_end(s, d0, Run::Dec), ']');
            }
        }
    } else if p0 < s.len() && s[p0] == '{' {
        let k0 = skip(s, p0 + 1);
        lemma_skip_bounds(s, p0 + 1);
        lemma_ident_bounds(s, k0);
        if let Ok(k1) = ident(s, k0) {
            lemma_tok_bounds(s, k1, ':');
            if let Ok(q1) = tok(s, k1, ':') {
                lemma_field_type_bounds(s, q1);
                if let Ok((_, q2)) = field_type(s, q1) {
                    lemma_tok_bounds(s, q2, '}');
                }
            }
        }
    } else {
        lemma_ident_bounds(s, p0);
    }
    if let Ok((_, q)) = field_type_base(s, p) {
        lemma_tok_bounds(s, q, '?');
    }
}

// ---------------------------------------------------------------------------
// Declarations
// ---------------------------------------------------------------------------

/// Prepends nothing and appends `v` to the values read so far, keeping the
/// first out-of-range literal.
pub open spec fn push_value<V>(acc: Result<Seq<V>, (int, int)>, v: Result<V, (int, int)>) -> Result<Seq<V>, (int, int)> {
    match acc {
        Err(x) => Err(x),
        Ok(vs) => match v {
            Err(x) => Err(x),
            Ok(v) => Ok(vs.push(v)),
        },
    }
}

/// The index of the entry with key `k` in `m` at or after `i`, if any.
pub open spec fn key_index_from<V>(m: Seq<(Seq<char>, V)>, k: Seq<char>, i: int) -> Option<int>
    decreases m.len() - i,
{
    if i < 0 || i >= m.len() {
        None
    } else if m[i].0 == k {
        Some(i)
    } else {
        key_index_from(m, k, i + 1)
    }
}

/// `m` with the value of key `k` set to `v`: an entry with that key is
/// replaced in place, else the entry is added at the end.
pub open spec fn insert_entry<V>(m: Seq<(Seq<char>, V)>, k: Seq<char>, v: V) -> Seq<(Seq<char>, V)> {
    match key_index_from(m, k, 0) {
        Some(i) => m.update(i, (k, v)),
        None => m.push((k, v)),
    }
}

pub open spec fn insert_value(
    acc: Result<Seq<(Seq<char>, MetadataValueView)>, (int, int)>,
    e: Result<(Seq<char>, MetadataValueView), (int, int)>,
) -> Result<Seq<(Seq<char>, MetadataValueView)>, (int, int)> {
    match acc {
        Err(x) => Err(x),
        Ok(m) => match e {
            Err(x) => Err(x),
            Ok((k, v)) => Ok(insert_entry(m, k, v)),
        },
    }
}

/// `key = value` in a `meta` block, the value a string literal or an
/// integer literal read as `i64`.
pub open spec fn meta_entry(s: Seq<char>, p: int) -> Outcome<(Seq<char>, MetadataValueView)> {
    let k0 = skip(s, p);
    match ident(s, k0) {
        Err(e) => Err(e),
        Ok(k1) => match tok(s, k1, '=') {
            Err(e) => Err(e),
            Ok(q) => {
                let v0 = skip(s, q);
                let key = s.subrange(k0, k1);
                if v0 < s.len() && s[v0] == '"' {
                    match string_literal(s, v0) {
                        Err(e) => Err(e),
                        Ok(v1) => Ok((Ok((key, MetadataValueView::String(s.subrange(v0, v1)))), v1)),
                    }
                } else {
                    match integer_literal(s, v0) {
                        Err(e) => Err(e),
                        Ok(v1) => Ok((
                            match literal_value(s.subrange(v0, v1), IntegerType::I64) {
                                Some(iv) => Ok((key, MetadataValueView::Integer(iv))),
                                None => Err((v0, v1)),
                            },
                            v1,
                        )),
                    }
                }
            },
        },
    }
}

/// `name = literal` in an enum whose base type is `t`.
pub open spec fn enum_variant(s: Seq<char>, p: int, t: IntegerType) -> Outcome<(Seq<char>, IntegerValue)> {
    let k0 = skip(s, p);
    match ident(s, k0) {
        Err(e) => Err(e),
        Ok(k1) => match tok(s, k1, '=') {
            Err(e) => Err(e),
            Ok(q) => {
                let v0 = skip(s, q);
                match integer_literal(s, v0) {
                    Err(e) => Err(e),
                    Ok(v1) => Ok((
                        match literal_value(s.subrange(v0, v1), t) {
                            Some(iv) => Ok((s.subrange(k0, k1), iv)),
                            None => Err((v0, v1)),
                        },
                        v1,
                    )),
                }
            },
        },
    }
}

/// `name : type` in a struct.
pub open spec fn struct_field(s: Seq<char>, p: int) -> Outcome<(Seq<char>, FieldTypeView)> {
    let k0 = skip(s, p);
    match ident(s, k0) {
        Err(e) => Err(e),
        Ok(k1) => match tok(s, k1, ':') {
            Err(e) => Err(e),
            Ok(q) => match field_type(s, q) {
                Err(e) => Err(e),
                Ok((fv, q1)) => Ok((
                    match fv {
                        Err(x) => Err(x),
                        Ok(ft) => Ok((s.subrange(k0, k1), ft)),
                    },
                    q1,
                )),
            },
        },
    }
}

pub proof fn lemma_item_bounds(s: Seq<char>, p: int, t: IntegerType)
    requires
        0 <= p <= s.len(),
    ensures
        meta_entry(s, p) matches Ok((_, q)) ==> p <= q <= s.len(),
        enum_variant(s, p, t) matches Ok((_, q)) ==> p <= q <= s.len(),
        struct_field(s, p) matches Ok((_, q)) ==> p <= q <= s.len(),
{
    let k0 = skip(s, p);
    lemma_skip_bounds(s, p);
    lemma_ident_bounds(s, k0);
    if let Ok(k1) = ident(s, k0) {
        lemma_tok_bounds(s, k1, '=');
        lemma_tok_bounds(s, k1, ':');
        if let Ok(q) = tok(s, k1, '=') {
            let v0 = skip(s, q);
            lemma_skip_bounds(s, q);
            if v0 < s.len() {
                lemma_quote_end_bounds(s, v0 + 1);
            }
            let q0 = if 0 <= v0 < s.len() && s[v0] == '-' { v0 + 1 } else { v0 };
            if q0 <= s.len() {
                lemma_run_end_bounds(s, q0, Run::Dec);
            }
            if q0 + 2 <= s.len() {
                lemma_run_end_bounds(s, q0 + 2, Run::Hex);
                lemma_run_end_bounds(s, q0 + 2, Run::Bin);
            }
        }
        if let Ok(q) = tok(s, k1, ':') {
            lemma_field_type_bounds(s, q);
        }
    }
}

/// The entries of a `meta` block from `p` up to its closing `}` (returned
/// position), separated by `,` with an optional trailing `,`; `acc` holds
/// the entries read before `p`.
pub open spec fn meta_entries(
    s: Seq<char>,
    p: int,
    acc: Result<Seq<(Seq<char>, MetadataValueView)>, (int, int)>,
) -> Outcome<Seq<(Seq<char>, MetadataValueView)>>
    decreases s.len() - p,
{
    if 0 <= p <= s.len() {
        let p0 = skip(s, p);
        if p0 < s.len() && s[p0] == '}' {
            Ok((acc, p0))
        } else {
            match meta_entry(s, p0) {
                Err(e) => Err(e),
                Ok((ev, q)) => {
                    let q1 = skip(s, q);
                    proof {
                        lemma_skip_bounds(s, p);
                        lemma_item_bounds(s, p0, IntegerType::I64);
                        lemma_skip_bounds(s, q);
                    }
                    if q1 < s.len() && s[q1] == ',' {
                        meta_entries(s, q1 + 1, insert_value(acc, ev))
                    } else if q1 < s.len() && s[q1] == '}' {
                        Ok((insert_value(acc, ev), q1))
                    } else {
                        Err(q1)
                    }
                },
            }
        }
    } else {
        Err(p)
    }
}

/// The variants of an enum with base type `t`, up to the closing `}`.
pub open spec fn enum_variants(
    s: Seq<char>,
    p: int,
    t: IntegerType,
    acc: Result<Seq<(Seq<char>, IntegerValue)>, (int, int)>,
) -> Outcome<Seq<(Seq<char>, IntegerValue)>>
    decreases s.len() - p,
{
    if 0 <= p <= s.len() {
        let p0 = skip(s, p);
        if p0 < s.len() && s[p0] == '}' {
            Ok((acc, p0))
        } else {
            match enum_variant(s, p0, t) {
                Err(e) => Err(e),
                Ok((ev, q)) => {
                    let q1 = skip(s, q);
                    proof {
                        lemma_skip_bounds(s, p);
                        lemma_item_bounds(s, p0, t);
                        lemma_skip_bounds(s, q);
                    }
                    if q1 < s.len() && s[q1] == ',' {
                        enum_variants(s, q1 + 1, t, push_value(acc, ev))
                    } else if q1 < s.len() && s[q1] == '}' {
                        Ok((push_value(acc, ev), q1))
                    } else {
                        Err(q1)
                    }
                },
            }
        }
    } else {
        Err(p)
    }
}

/// The fields of a struct, up to the closing `}`.
pub open spec fn struct_fields(
    s: Seq<char>,
    p: int,
    acc: Result<Seq<(Seq<char>, FieldTypeView)>, (int, int)>,
) -> Outcome<Seq<(Seq<char>, FieldTypeView)>>
    decreases s.len() - p,
{
    if 0 <= p <= s.len() {
        let p0 = skip(s, p);
        if p0 < s.len() && s[p0] == '}' {
            Ok((acc, p0))
        } else {
            match struct_field(s, p0) {
                Err(e) => Err(e),
                Ok((fv, q)) => {
                    let q1 = skip(s, q);
                    proof {
                        lemma_skip_bounds(s, p);
                        lemma_item_bounds(s, p0, IntegerType::I32);
                        lemma_skip_bounds(s, q);
                    }
                    if q1 < s.len() && s[q1] == ',' {
                        struct_fields(s, q1 + 1, push_value(acc, fv))
                    } else if q1 < s.len() && s[q1] == '}' {
                        Ok((push_value(acc, fv), q1))
                    } else {
                        Err(q1)
                    }
                },
            }
        }
    } else {
        Err(p)
    }
}

/// A `meta { .. }` block at `p`: its entries.
pub open spec fn meta_decl(s: Seq<char>, p: int) -> Outcome<Seq<(Seq<char>, MetadataValueView)>> {
    let k0 = skip(s, p);
    match ident(s, k0) {
        Err(e) => Err(e),
        Ok(k1) => if s.subrange(k0, k1) != "meta"@ {
            Err(k0)
        } else {
            match tok(s, k1, '{') {
                Err(e) => Err(e),
                Ok(q) => match meta_entries(s, q, Ok(seq![])) {
                    Err(e) => Err(e),
                    Ok((m, q1)) => Ok((m, q1 + 1)),
                },
            }
        },
    }
}

/// The base type of an enum after its name (position `p`): `: T` for an
/// integer type `T`, or `i32` when absent. The type and the position after it.
pub open spec fn enum_base_type(s: Seq<char>, p: int) -> Result<(IntegerType, int), int> {
    match tok(s, p, ':') {
        Ok(q) => {
            let t0 = skip(s, q);
            match ident(s, t0) {
                Err(e) => Err(e),
                Ok(t1) => match integer_type_word(s.subrange(t0, t1)) {
                    None => Err(t0),
                    Some(it) => Ok((it, t1)),
                },
            }
        },
        Err(_) => Ok((IntegerType::I32, p)),
    }
}

/// An enum declaration after the keyword `enum`: `name [: T] { variants }`.
pub open spec fn enum_rest(s: Seq<char>, p: int) -> Outcome<DeclarationView> {
    let n0 = skip(s, p);
    match ident(s, n0) {
        Err(e) => Err(e),
        Ok(n1) => match enum_base_type(s, n1) {
            Err(e) => Err(e),
            Ok((t, q)) => match tok(s, q, '{') {
                Err(e) => Err(e),
                Ok(q1) => match enum_variants(s, q1, t, Ok(seq![])) {
                    Err(e) => Err(e),
                    Ok((vs, q2)) => Ok((
                        match vs {
                            Err(x) => Err(x),
                            Ok(vs) => Ok(DeclarationView::Enum {
                                ident: s.subrange(n0, n1),
                                base_type: t,
                                variants: vs,
                            }),
                        },
                        q2 + 1,
                    )),
                },
            },
        },
    }
}

/// A struct declaration after the keyword `struct`: `name { fields }`.
pub open spec fn struct_rest(s: Seq<char>, p: int) -> Outcome<DeclarationView> {
    let n0 = skip(s, p);
    match ident(s, n0) {
        Err(e) => Err(e),
        Ok(n1) => match tok(s, n1, '{') {
            Err(e) => Err(e),
            Ok(q1) => match struct_fields(s, q1, Ok(seq![])) {
                Err(e) => Err(e),
                Ok((fs, q2)) => Ok((
                    match fs {
                        Err(x) => Err(x),
                        Ok(fs) => Ok(DeclarationView::Struct { ident: s.subrange(n0, n1), fields: fs }),
                    },
                    q2 + 1,
                )),
            },
        },
    }
}

/// A declaration at `p`: `enum ..` or `struct ..`.
pub open spec fn declaration(s: Seq<char>, p: int) -> Outcome<DeclarationView> {
    let w0 = skip(s, p);
    match ident(s, w0) {
        Err(e) => Err(e),
        Ok(w1) => if s.subrange(w0, w1) == "enum"@ {
            enum_rest(s, w1)
        } else if s.subrange(w0, w1) == "struct"@ {
            struct_rest(s, w1)
        } else {
            Err(w0)
        },
    }
}

pub proof fn lemma_declaration_bounds(s: Seq<char>, p: int)
    requires
        0 <= p <= s.len(),
    ensures
        declaration(s, p) matches Ok((_, q)) ==> p < q <= s.len(),
{
    let w0 = skip(s, p);
    lemma_skip_bounds(s, p);
    lemma_ident_bounds(s, w0);
    if let Ok(w1) = ident(s, w0) {
        let n0 = skip(s, w1);
        lemma_skip_bounds(s, w1);
        lemma_ident_bounds(s, n0);
        if let Ok(n1) = ident(s, n0) {
            lemma_tok_bounds(s, n1, '{');
            lemma_tok_bounds(s, n1, ':');
            if let Ok(q) = tok(s, n1, ':') {
                lemma_skip_bounds(s, q);
                lemma_ident_bounds(s, skip(s, q));
            }
            if let Ok((t, q)) = enum_base_type(s, n1) {
                lemma_tok_bounds(s, q, '{');
                if let Ok(q1) = tok(s, q, '{') {
                    lemma_list_bounds(s, q1, t);
                }
            }
            if let Ok(q1) = tok(s, n1, '{') {
                lemma_list_bounds(s, q1, IntegerType::I32);
            }
        }
    }
}

/// A list that succeeds ends at a `}` at or after `p`.
pub open spec fn closes_list<V>(r: Outcome<V>, s: Seq<char>, p: int) -> bool {
    match r {
        Ok((_, q)) => p <= q < s.len() && s[q] == '}',
        Err(_) => true,
    }
}

/// The lists end at a `}`, at or after where they start.
pub proof fn lemma_list_bounds(s: Seq<char>, p: int, t: IntegerType)
    requires
        0 <= p <= s.len(),
    ensures
        forall|acc| closes_list(#[trigger] meta_entries(s, p, acc), s, p),
        forall|acc| closes_list(#[trigger] enum_variants(s, p, t, acc), s, p),
        forall|acc| closes_list(#[trigger] struct_fields(s, p, acc), s, p),
    decreases s.len() - p,
{
    let p0 = skip(s, p);
    lemma_skip_bounds(s, p);
    lemma_item_bounds(s, p0, t);
    lemma_item_bounds(s, p0, IntegerType::I64);
    assert forall|acc| closes_list(#[trigger] meta_entries(s, p, acc), s, p) by {
        if let Ok((ev, q)) = meta_entry(s, p0) {
            lemma_skip_bounds(s, q);
            if skip(s, q) < s.len() && s[skip(s, q)] == ',' {
                lemma_list_bounds(s, skip(s, q) + 1, t);
                assert(meta_entries(s, p, acc) == meta_entries(s, skip(s, q) + 1, insert_value(acc, ev)));
            }
        }
    }
    assert forall|acc| closes_list(#[trigger] enum_variants(s, p, t, acc), s, p) by {
        if let Ok((ev, q)) = enum_variant(s, p0, t) {
            lemma_skip_bounds(s, q);
            if skip(s, q) < s.len() && s[skip(s, q)] == ',' {
                lemma_list_bounds(s, skip(s, q) + 1, t);
                assert(enum_variants(s, p, t, acc) == enum_variants(s, skip(s, q) + 1, t, push_value(acc, ev)));
            }
        }
    }
    assert forall|acc| closes_list(#[trigger] struct_fields(s, p, acc), s, p) by {
        if let Ok((fv, q)) = struct_field(s, p0) {
            lemma_skip_bounds(s, q);
            if skip(s, q) < s.len() && s[skip(s, q)] == ',' {
                lemma_list_bounds(s, skip(s, q) + 1, t);
                assert(struct_fields(s, p, acc) == struct_fields(s, skip(s, q) + 1, push_value(acc, fv)));
            }
        }
    }
}

/// The declarations from `p` to the end of the text; `acc` holds those read
/// before `p`.
pub open spec fn declarations(s: Seq<char>, p: int, acc: Result<Seq<DeclarationView>, (int, int)>) -> Outcome<Seq<DeclarationView>>
    decreases s.len() - p,
{
    if 0 <= p <= s.len() {
        let p0 = skip(s, p);
        if p0 >= s.len() {
            Ok((acc, p0))
        } else {
            match declaration(s, p0) {
                Err(e) => Err(e),
                Ok((dv, q)) => {
                    proof {
                        lemma_skip_bounds(s, p);
                        lemma_declaration_bounds(s, p0);
                    }
                    declarations(s, q, push_value(acc, dv))
                },
            }
        }
    } else {
        Err(p)
    }
}

/// Why a source text is not a schema: the text stops matching the language
/// at a position, or an integer literal `s[a..b]` is out of range.
pub enum SchemaFailure {
    Syntax(int),
    Range(int, int),
}

/// The schema a source text holds: a `meta` block, then declarations up to
/// the end of the text. A syntax error anywhere comes before any
/// out-of-range literal; of those, the first in the order `meta` entries,
/// then declarations in order.
pub open spec fn schema(s: Seq<char>) -> Result<SchemaView, SchemaFailure> {
    match meta_decl(s, 0) {
        Err(e) => Err(SchemaFailure::Syntax(e)),
        Ok((mv, q)) => match declarations(s, q, Ok(seq![])) {
            Err(e) => Err(SchemaFailure::Syntax(e)),
            Ok((dv, _)) => match mv {
                Err((a, b)) => Err(SchemaFailure::Range(a, b)),
                Ok(m) => match dv {
                    Err((a, b)) => Err(SchemaFailure::Range(a, b)),
                    Ok(ds) => Ok(SchemaView { metadata: m, declarations: ds }),
                },
            },
        },
    }
}

} // verus!
