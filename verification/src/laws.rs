//! Properties that relate the functions of the library to each other.
use vstd::prelude::*;

use crate::ast::{
    integer_value_int, integer_value_type, is_signed, type_max, type_min, IntegerType, IntegerValue,
    MetadataValueView, Schema, FieldType, FieldTypeView,
};
use crate::builder::build_result;
use crate::error::GenoError;
use crate::grammar::{
    ident, insert_entry, insert_value, key_index_from, lemma_item_bounds, lemma_skip_bounds,
    meta_entries, meta_entry, skip, tok, integer_type_word, with_nullable, field_type, field_type_base,
};
use crate::codegen::{
    field_type_text, integer_type_text, pascal_case, pascal_from, snake_case, snake_from,
};
use crate::number::{
    digit_value, digits_value, from_str_radix_value, literal_radix, literal_value, starts_with2,
};
use crate::text::{
    digit_char, int_text, is_ascii_char, is_ascii_lower, is_ascii_upper, is_upper, lower_text,
    nat_text, upper_text,
};

verus! {

// ---------------------------------------------------------------------------
// Integer literals
// ---------------------------------------------------------------------------

/// Every character of a decimal text is a decimal digit, and the digits
/// have the value they were printed from.
pub proof fn lemma_nat_text(n: nat)
    ensures
        nat_text(n).len() >= 1,
        forall|i: int| 0 <= i < nat_text(n).len() ==> '0' <= #[trigger] nat_text(n)[i] <= '9',
        digits_value(nat_text(n), 10) == Some(n as int),
    decreases n,
{
    if n < 10 {
        let t = nat_text(n);
        assert(t.drop_last() =~= Seq::<char>::empty());
        assert(digits_value(t.drop_last(), 10) == Some(0int));
        assert(digit_value(digit_char(n)) == n);
        assert(digit_value(t.last()) == n);
    } else {
        lemma_nat_text(n / 10);
        let t = nat_text(n);
        let head = nat_text(n / 10);
        assert(t.drop_last() =~= head);
        assert(t.last() == digit_char(n % 10));
        assert(digit_value(digit_char(n % 10)) == n % 10);
        assert((n / 10) * 10 + n % 10 == n) by (nonlinear_arith);
        assert forall|i: int| 0 <= i < t.len() implies '0' <= #[trigger] t[i] <= '9' by {
            if i < head.len() {
                assert(t[i] == head[i]);
            }
        }
    }
}

/// The decimal text of an integer value, read back as a literal of the
/// value's own type, gives the value: what `integer_value_str` writes,
/// `build_integer_literal` reads back unchanged.
pub proof fn law_integer_literal_roundtrip(v: IntegerValue)
    ensures
        literal_value(int_text(integer_value_int(v)), integer_value_type(v)) == Some(v),
{
    let x = integer_value_int(v);
    let t = integer_value_type(v);
    let text = int_text(x);
    assert(type_min(t) <= x <= type_max(t));
    if x < 0 {
        let m = (-x) as nat;
        lemma_nat_text(m);
        assert(is_signed(t));
        assert(text[0] == '-');
        assert(text.drop_first() =~= nat_text(m));
        assert(literal_radix(text) == 10);
        assert(from_str_radix_value(text, 10, is_signed(t), type_min(t), type_max(t)) == Some(x));
    } else {
        lemma_nat_text(x as nat);
        assert(text == nat_text(x as nat));
        assert('0' <= text[0] <= '9');
        if text.len() >= 2 {
            assert('0' <= text[1] <= '9');
        }
        assert(literal_radix(text) == 10);
        assert(from_str_radix_value(text, 10, is_signed(t), type_min(t), type_max(t)) == Some(x));
    }
}

// ---------------------------------------------------------------------------
// Identifier case conversion
// ---------------------------------------------------------------------------

pub open spec fn all_ascii(s: Seq<char>) -> bool {
    forall|i: int| 0 <= i < s.len() ==> is_ascii_char(#[trigger] s[i])
}

/// ASCII text without uppercase ASCII letters.
pub open spec fn ascii_without_upper(s: Seq<char>) -> bool {
    forall|i: int| 0 <= i < s.len() ==> is_ascii_char(#[trigger] s[i]) && !is_ascii_upper(s[i])
}

/// ASCII text without `_`.
pub open spec fn ascii_without_underscore(s: Seq<char>) -> bool {
    forall|i: int| 0 <= i < s.len() ==> is_ascii_char(#[trigger] s[i]) && s[i] != '_'
}

proof fn lemma_snake_from_lower(s: Seq<char>, first: bool)
    requires
        all_ascii(s),
    ensures
        ascii_without_upper(snake_from(s, first)),
    decreases s.len(),
{
    if s.len() > 0 {
        assert(is_ascii_char(s[0]));
        let rest = s.drop_first();
        assert(all_ascii(rest)) by {
            assert forall|i: int| 0 <= i < rest.len() implies is_ascii_char(#[trigger] rest[i]) by {
                assert(rest[i] == s[i + 1]);
            }
        }
        lemma_snake_from_lower(rest, false);
        let head = (if is_upper(s[0]) && !first { seq!['_'] } else { seq![] }) + lower_text(s[0]);
        let r = snake_from(s, first);
        assert(r == head + snake_from(rest, false));
        assert(ascii_without_upper(head));
        assert forall|i: int| 0 <= i < r.len() implies is_ascii_char(#[trigger] r[i]) && !is_ascii_upper(r[i]) by {
            if i < head.len() {
                assert(r[i] == head[i]);
            } else {
                assert(r[i] == snake_from(rest, false)[i - head.len()]);
            }
        }
    }
}

proof fn lemma_snake_from_fixed(t: Seq<char>, first: bool)
    requires
        ascii_without_upper(t),
    ensures
        snake_from(t, first) == t,
    decreases t.len(),
{
    if t.len() > 0 {
        let rest = t.drop_first();
        assert(ascii_without_upper(rest)) by {
            assert forall|i: int| 0 <= i < rest.len() implies is_ascii_char(#[trigger] rest[i]) && !is_ascii_upper(rest[i]) by {
                assert(rest[i] == t[i + 1]);
            }
        }
        lemma_snake_from_fixed(rest, false);
        assert(is_ascii_char(t[0]) && !is_ascii_upper(t[0]));
        assert(lower_text(t[0]) == seq![t[0]]);
        assert(snake_from(t, first) =~= seq![t[0]] + rest);
        assert(seq![t[0]] + rest =~= t);
    }
}

/// For ASCII input, `to_snake_case` gives ASCII text with no uppercase letter.
pub proof fn law_snake_case_has_no_uppercase(s: Seq<char>)
    requires
        all_ascii(s),
    ensures
        ascii_without_upper(snake_case(s)),
{
    lemma_snake_from_lower(s, true);
}

/// snake_case text is left as it is by `to_snake_case`: for ASCII input,
/// converting twice gives what converting once gives.
pub proof fn law_snake_case_idempotent(s: Seq<char>)
    requires
        all_ascii(s),
    ensures
        snake_case(snake_case(s)) == snake_case(s),
{
    lemma_snake_from_lower(s, true);
    lemma_snake_from_fixed(snake_case(s), true);
}

proof fn lemma_pascal_from_shape(s: Seq<char>, at_start: bool)
    requires
        all_ascii(s),
    ensures
        ascii_without_underscore(pascal_from(s, at_start)),
        at_start && pascal_from(s, at_start).len() > 0 ==> !is_ascii_lower(pascal_from(s, at_start)[0]),
    decreases s.len(),
{
    if s.len() > 0 {
        assert(is_ascii_char(s[0]));
        let rest = s.drop_first();
        assert(all_ascii(rest)) by {
            assert forall|i: int| 0 <= i < rest.len() implies is_ascii_char(#[trigger] rest[i]) by {
                assert(rest[i] == s[i + 1]);
            }
        }
        lemma_pascal_from_shape(rest, true);
        lemma_pascal_from_shape(rest, false);
        if s[0] != '_' {
            let head = if at_start { upper_text(s[0]) } else { seq![s[0]] };
            let tail = pascal_from(rest, false);
            let r = pascal_from(s, at_start);
            assert(r == head + tail);
            assert(head.len() == 1);
            assert forall|i: int| 0 <= i < r.len() implies is_ascii_char(#[trigger] r[i]) && r[i] != '_' by {
                if i < 1 {
                    assert(r[i] == head[0]);
                } else {
                    assert(r[i] == tail[i - 1]);
                }
            }
        }
    }
}

proof fn lemma_pascal_from_fixed(t: Seq<char>, at_start: bool)
    requires
        ascii_without_underscore(t),
        at_start && t.len() > 0 ==> !is_ascii_lower(t[0]),
    ensures
        pascal_from(t, at_start) == t,
    decreases t.len(),
{
    if t.len() > 0 {
        let rest = t.drop_first();
        assert(ascii_without_underscore(rest)) by {
            assert forall|i: int| 0 <= i < rest.len() implies is_ascii_char(#[trigger] rest[i]) && rest[i] != '_' by {
                assert(rest[i] == t[i + 1]);
            }
        }
        lemma_pascal_from_fixed(rest, false);
        assert(is_ascii_char(t[0]) && t[0] != '_');
        if at_start {
            assert(upper_text(t[0]) == seq![t[0]]);
        }
        assert(pascal_from(t, at_start) =~= seq![t[0]] + rest);
        assert(seq![t[0]] + rest =~= t);
    }
}

/// For ASCII input, `to_pascal_case` gives ASCII text with no `_` that
/// does not start with a lowercase letter.
pub proof fn law_pascal_case_shape(s: Seq<char>)
    requires
        all_ascii(s),
    ensures
        ascii_without_underscore(pascal_case(s)),
        pascal_case(s).len() > 0 ==> !is_ascii_lower(pascal_case(s)[0]),
{
    lemma_pascal_from_shape(s, true);
}

/// PascalCase text is left as it is by `to_pascal_case`: for ASCII input,
/// converting twice gives what converting once gives.
pub proof fn law_pascal_case_idempotent(s: Seq<char>)
    requires
        all_ascii(s),
    ensures
        pascal_case(pascal_case(s)) == pascal_case(s),
{
    lemma_pascal_from_shape(s, true);
    lemma_pascal_from_fixed(pascal_case(s), true);
}

// ---------------------------------------------------------------------------
// Metadata
// ---------------------------------------------------------------------------

/// No two entries have the same key.
pub open spec fn keys_distinct<V>(m: Seq<(Seq<char>, V)>) -> bool {
    forall|i: int, j: int| 0 <= i < j < m.len() ==> #[trigger] m[i].0 != #[trigger] m[j].0
}

proof fn lemma_key_index_from<V>(m: Seq<(Seq<char>, V)>, k: Seq<char>, i: int)
    requires
        0 <= i,
    ensures
        key_index_from(m, k, i) is None ==> forall|j: int| i <= j < m.len() ==> #[trigger] m[j].0 != k,
        key_index_from(m, k, i) matches Some(j) ==> i <= j < m.len() && m[j].0 == k,
    decreases m.len() - i,
{
    if i < m.len() && m[i].0 != k {
        lemma_key_index_from(m, k, i + 1);
    }
}

proof fn lemma_insert_entry_distinct<V>(m: Seq<(Seq<char>, V)>, k: Seq<char>, v: V)
    requires
        keys_distinct(m),
    ensures
        keys_distinct(insert_entry(m, k, v)),
{
    lemma_key_index_from(m, k, 0);
    let r = insert_entry(m, k, v);
    match key_index_from(m, k, 0) {
        Some(idx) => {
            assert forall|i: int, j: int| 0 <= i < j < r.len() implies #[trigger] r[i].0 != #[trigger] r[j].0 by {
                assert(r[i].0 == m[i].0);
                assert(r[j].0 == m[j].0);
            }
        },
        None => {
            assert forall|i: int, j: int| 0 <= i < j < r.len() implies #[trigger] r[i].0 != #[trigger] r[j].0 by {
                if j < m.len() {
                    assert(r[i] == m[i] && r[j] == m[j]);
                } else {
                    assert(r[j].0 == k);
                    assert(r[i] == m[i]);
                }
            }
        },
    }
}

proof fn lemma_meta_entries_distinct(
    s: Seq<char>,
    p: int,
    acc: Result<Seq<(Seq<char>, MetadataValueView)>, (int, int)>,
)
    requires
        acc matches Ok(m) ==> keys_distinct(m),
    ensures
        meta_entries(s, p, acc) matches Ok((Ok(m), _)) ==> keys_distinct(m),
    decreases s.len() - p,
{
    if 0 <= p <= s.len() {
        let p0 = skip(s, p);
        if !(p0 < s.len() && s[p0] == '}') {
            if let Ok((ev, q)) = meta_entry(s, p0) {
                let next = insert_value(acc, ev);
                if let (Ok(m), Ok((k, v))) = (acc, ev) {
                    lemma_insert_entry_distinct(m, k, v);
                }
                let q1 = skip(s, q);
                lemma_skip_bounds(s, p);
                lemma_item_bounds(s, p0, IntegerType::I64);
                lemma_skip_bounds(s, q);
                if q1 < s.len() && s[q1] == ',' {
                    lemma_meta_entries_distinct(s, q1 + 1, next);
                }
            }
        }
    }
}

/// Each `meta` key appears once in a built schema: a later entry for a key
/// replaces the earlier one, as in a map.
pub proof fn law_metadata_keys_distinct(s: Seq<char>, file: Seq<char>, r: Result<Schema, GenoError>)
    requires
        build_result(s, file, r),
    ensures
        r matches Ok(sc) ==> keys_distinct(sc@.metadata),
{
    let k0 = skip(s, 0);
    if let Ok(k1) = ident(s, k0) {
        if let Ok(q) = tok(s, k1, '{') {
            lemma_meta_entries_distinct(s, q, Ok(seq![]));
        }
    }
}

// ---------------------------------------------------------------------------
// Type names and the nullable marker
// ---------------------------------------------------------------------------

/// The word that names an integer type in a schema reads back as that type,
/// and it is the name written for the type in generated Rust: each of
/// `i8`, `u8`, `i16`, `u16`, `i32`, `u32`, `i64`, `u64` names its own type.
pub proof fn law_integer_type_names(t: IntegerType)
    ensures
        integer_type_word(integer_type_text(t)) == Some(t),
        t == IntegerType::I8 ==> integer_type_text(t) == seq!['i', '8'],
        t == IntegerType::U8 ==> integer_type_text(t) == seq!['u', '8'],
        t == IntegerType::I16 ==> integer_type_text(t) == seq!['i', '1', '6'],
        t == IntegerType::U16 ==> integer_type_text(t) == seq!['u', '1', '6'],
        t == IntegerType::I32 ==> integer_type_text(t) == seq!['i', '3', '2'],
        t == IntegerType::U32 ==> integer_type_text(t) == seq!['u', '3', '2'],
        t == IntegerType::I64 ==> integer_type_text(t) == seq!['i', '6', '4'],
        t == IntegerType::U64 ==> integer_type_text(t) == seq!['u', '6', '4'],
{
    reveal_strlit("i8");
    reveal_strlit("u8");
    reveal_strlit("i16");
    reveal_strlit("u16");
    reveal_strlit("i32");
    reveal_strlit("u32");
    reveal_strlit("i64");
    reveal_strlit("u64");
    assert("i8"@ =~= seq!['i', '8']);
    assert("u8"@ =~= seq!['u', '8']);
    assert("i16"@ =~= seq!['i', '1', '6']);
    assert("u16"@ =~= seq!['u', '1', '6']);
    assert("i32"@ =~= seq!['i', '3', '2']);
    assert("u32"@ =~= seq!['u', '3', '2']);
    assert("i64"@ =~= seq!['i', '6', '4']);
    assert("u64"@ =~= seq!['u', '6', '4']);
}

/// Distinct integer types get distinct names.
pub proof fn law_integer_type_names_distinct(t: IntegerType, u: IntegerType)
    requires
        t != u,
    ensures
        integer_type_text(t) != integer_type_text(u),
{
    law_integer_type_names(t);
    law_integer_type_names(u);
}

/// The nullable flag of a field type.
pub open spec fn nullable_flag(v: FieldTypeView) -> bool {
    match v {
        FieldTypeView::Builtin(_, n) => n,
        FieldTypeView::UserDefined(_, n) => n,
        FieldTypeView::Array(_, _, n) => n,
        FieldTypeView::MapType(_, _, n) => n,
    }
}

/// Setting the nullable flag sets it, whatever the kind of field type.
pub proof fn law_with_nullable(v: FieldTypeView, n: bool)
    ensures
        nullable_flag(with_nullable(v, n)) == n,
        with_nullable(with_nullable(v, n), false) == with_nullable(v, false),
{
}

/// A field type followed by `?` is the same type, nullable: the `?` is
/// never dropped, for builtin, user-defined, array and map types alike.
/// Without a `?` a field type is not nullable.
pub proof fn law_nullable_marker(s: Seq<char>, p: int)
    requires
        0 <= p <= s.len(),
    ensures
        match field_type_base(s, p) {
            Ok((Ok(v), q)) => !nullable_flag(v) && match field_type(s, p) {
                Ok((Ok(w), _)) => (nullable_flag(w) <==> tok(s, q, '?') is Ok)
                    && with_nullable(w, false) == v,
                _ => false,
            },
            _ => true,
        },
{
    reveal_with_fuel(field_type, 1);
    reveal_with_fuel(field_type_base, 1);
}

/// `FieldType` with its nullable flag set to `n`.
pub open spec fn field_type_with_nullable(ft: FieldType, n: bool) -> FieldType {
    match ft {
        FieldType::Builtin(bt, _) => FieldType::Builtin(bt, n),
        FieldType::UserDefined(name, _) => FieldType::UserDefined(name, n),
        FieldType::Array(inner, len, _) => FieldType::Array(inner, len, n),
        FieldType::MapType(k, v, _) => FieldType::MapType(k, v, n),
    }
}

/// The Rust type of a nullable field is `Option<..>` around the Rust type of
/// the same field when not nullable, for every kind of field type.
pub proof fn law_nullable_field_is_option(ft: FieldType)
    ensures
        field_type_text(field_type_with_nullable(ft, true))
            == "Option<"@ + field_type_text(field_type_with_nullable(ft, false)) + ">"@,
{
}

// ---------------------------------------------------------------------------
// Signed literals
// ---------------------------------------------------------------------------

/// A signed integer type takes no `0b` or `0x` literal: such a literal has
/// no value for it (and is reported out of range).
pub proof fn law_signed_takes_decimal_only(text: Seq<char>, t: IntegerType)
    requires
        is_signed(t),
        starts_with2(text, '0', 'b') || starts_with2(text, '0', 'x'),
    ensures
        literal_value(text, t) is None,
{
}

} // verus!
