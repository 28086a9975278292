//! The values of integer literals.
use vstd::prelude::*;

use crate::ast::{
    integer_value_int, integer_value_type, is_signed, make_integer_value, type_max, type_min,
    IntegerType, IntegerValue,
};

verus! {

/// The value of `c` as a digit in any radix up to 36 (`0`-`9`, then `a`-`z`
/// or `A`-`Z`); 36 for any other character.
pub open spec fn digit_value(c: char) -> int {
    if '0' <= c <= '9' {
        c as int - 48
    } else if 'a' <= c <= 'z' {
        c as int - 87
    } else if 'A' <= c <= 'Z' {
        c as int - 55
    } else {
        36
    }
}

/// The value of the digit sequence `ds` in `radix`, or `None` if some
/// character is not a digit of that radix. The empty sequence has value 0.
pub open spec fn digits_value(ds: Seq<char>, radix: int) -> Option<int>
    decreases ds.len(),
{
    if ds.len() == 0 {
        Some(0)
    } else {
        match digits_value(ds.drop_last(), radix) {
            Some(v) => if digit_value(ds.last()) < radix {
                Some(v * radix + digit_value(ds.last()))
            } else {
                None
            },
            None => None,
        }
    }
}

/// What `from_str_radix` of an integer type whose values are `min..=max`
/// (and which takes a leading `-` when `signed`) gives for `src`: an
/// optional `+` (or `-` for a signed type), then at least one digit, and a
/// value in range.
pub open spec fn from_str_radix_value(src: Seq<char>, radix: int, signed: bool, min: int, max: int) -> Option<int> {
    if src.len() == 0 || (src.len() == 1 && (src[0] == '+' || src[0] == '-')) {
        None
    } else {
        let neg = signed && src[0] == '-';
        let ds = if src[0] == '+' || neg { src.drop_first() } else { src };
        match digits_value(ds, radix) {
            Some(v) => {
                let n = if neg { -v } else { v };
                if min <= n <= max { Some(n) } else { None }
            },
            None => None,
        }
    }
}

pub open spec fn starts_with2(s: Seq<char>, a: char, b: char) -> bool {
    s.len() >= 2 && s[0] == a && s[1] == b
}

/// The radix a literal is written in: `0b` binary, `0x` hexadecimal, else decimal.
pub open spec fn literal_radix(text: Seq<char>) -> int {
    if starts_with2(text, '0', 'b') {
        2
    } else if starts_with2(text, '0', 'x') {
        16
    } else {
        10
    }
}

/// The value of the literal `text` read as type `t`, or `None` when it is
/// out of range. Signed types take decimal literals only.
pub open spec fn literal_value(text: Seq<char>, t: IntegerType) -> Option<IntegerValue> {
    let radix = literal_radix(text);
    if is_signed(t) && radix != 10 {
        None
    } else {
        let ds = if radix != 10 { text.skip(2) } else { text };
        match from_str_radix_value(ds, radix, is_signed(t), type_min(t), type_max(t)) {
            Some(n) => Some(make_integer_value(t, n)),
            None => None,
        }
    }
}

/// The value of an array length literal (`usize` parsed in decimal).
pub open spec fn array_length_value(text: Seq<char>) -> Option<int> {
    from_str_radix_value(text, 10, false, 0, usize::MAX as int)
}

pub proof fn lemma_digits_value_nonneg(ds: Seq<char>, radix: int)
    requires
        radix >= 1,
    ensures
        digits_value(ds, radix) matches Some(v) ==> v >= 0,
    decreases ds.len(),
{
    if ds.len() > 0 {
        lemma_digits_value_nonneg(ds.drop_last(), radix);
        if let Some(v) = digits_value(ds.drop_last(), radix) {
            assert(v * radix >= 0) by (nonlinear_arith)
                requires
                    v >= 0,
                    radix >= 1,
            ;
        }
    }
}

/// A valid digit sequence has valid prefixes, of no larger value.
pub proof fn lemma_digits_value_prefix(ds: Seq<char>, radix: int, i: int)
    requires
        radix >= 1,
        0 <= i <= ds.len(),
        digits_value(ds, radix) is Some,
    ensures
        digits_value(ds.take(i), radix) is Some,
        digits_value(ds.take(i), radix).unwrap() <= digits_value(ds, radix).unwrap(),
    decreases ds.len(),
{
    if i == ds.len() {
        assert(ds.take(i) == ds);
    } else {
        let p = ds.drop_last();
        lemma_digits_value_prefix(p, radix, i);
        assert(p.take(i) == ds.take(i));
        lemma_digits_value_nonneg(p, radix);
        let v = digits_value(p, radix).unwrap();
        let d = digit_value(ds.last());
        assert(v <= v * radix + d) by (nonlinear_arith)
            requires
                v >= 0,
                radix >= 1,
                d >= 0,
        ;
    }
}

/// The value of `c` as a digit (36 when it is none).
pub fn char_digit_value(c: char) -> (r: u32)
    ensures
        r as int == digit_value(c),
{
    if '0' <= c && c <= '9' {
        (c as u32) - 48
    } else if 'a' <= c && c <= 'z' {
        (c as u32) - 87
    } else if 'A' <= c && c <= 'Z' {
        (c as u32) - 55
    } else {
        36
    }
}

/// The value of the digits `cs[a..b]` in `radix`, as long as it does not
/// exceed `u64::MAX`; `None` when a character is not a digit or the value is
/// larger.
pub fn digits_magnitude(cs: &Vec<char>, a: usize, b: usize, radix: u32) -> (r: Option<u128>)
    requires
        a <= b <= cs.len(),
        2 <= radix <= 36,
    ensures
        r matches Some(v) ==> v <= u64::MAX && digits_value(cs@.subrange(a as int, b as int), radix as int)
            == Some(v as int),
        r is None ==> (digits_value(cs@.subrange(a as int, b as int), radix as int) matches Some(v)
            ==> v > u64::MAX),
{
    let ghost ds = cs@.subrange(a as int, b as int);
    let mut acc: u128 = 0;
    let mut i: usize = a;
    assert(ds.take(0) == Seq::<char>::empty());
    while i < b
        invariant
            a <= i <= b <= cs.len(),
            2 <= radix <= 36,
            ds == cs@.subrange(a as int, b as int),
            acc <= u64::MAX,
            digits_value(ds.take(i - a), radix as int) == Some(acc as int),
        decreases b - i,
    {
        let d = char_digit_value(cs[i]);
        let ghost pre = ds.take(i - a);
        let ghost next = ds.take(i + 1 - a);
        assert(next.drop_last() == pre);
        assert(next.last() == cs@[i as int]);
        if d >= radix {
            proof {
                assert(digits_value(next, radix as int) is None);
                if digits_value(ds, radix as int) is Some {
                    lemma_digits_value_prefix(ds, radix as int, i + 1 - a);
                }
            }
            return None;
        }
        assert(acc * (radix as u128) <= u64::MAX as u128 * 36) by (nonlinear_arith)
            requires
                acc <= u64::MAX,
                radix <= 36,
        ;
        let next_acc: u128 = acc * (radix as u128) + (d as u128);
        if next_acc > u64::MAX as u128 {
            proof {
                if digits_value(ds, radix as int) is Some {
                    lemma_digits_value_prefix(ds, radix as int, i + 1 - a);
                }
            }
            return None;
        }
        acc = next_acc;
        i = i + 1;
    }
    assert(ds.take(b - a) == ds);
    Some(acc)
}

/// What `from_str_radix` gives for `cs[a..b]`, for an integer type whose
/// values are `min..=max`.
pub fn from_str_radix_span(
    cs: &Vec<char>,
    a: usize,
    b: usize,
    radix: u32,
    signed: bool,
    min: i128,
    max: i128,
) -> (r: Option<i128>)
    requires
        a <= b <= cs.len(),
        2 <= radix <= 36,
        -0x8000_0000_0000_0000 <= min <= 0,
        0 <= max <= u64::MAX,
    ensures
        r matches Some(n) ==> from_str_radix_value(cs@.subrange(a as int, b as int), radix as int, signed, min as int, max as int) == Some(n as int),
        r is None ==> from_str_radix_value(cs@.subrange(a as int, b as int), radix as int, signed, min as int, max as int) is None,
{
    let ghost src = cs@.subrange(a as int, b as int);
    if b == a || (b == a + 1 && (cs[a] == '+' || cs[a] == '-')) {
        return None;
    }
    assert(src[0] == cs@[a as int]);
    let neg = signed && cs[a] == '-';
    let start = if cs[a] == '+' || neg { a + 1 } else { a };
    assert(cs@.subrange(start as int, b as int) == (if src[0] == '+' || neg { src.drop_first() } else { src }));
    match digits_magnitude(cs, start, b, radix) {
        Some(v) => {
            let n: i128 = if neg { 0 - (v as i128) } else { v as i128 };
            if min <= n && n <= max {
                Some(n)
            } else {
                None
            }
        },
        None => None,
    }
}

/// The value of type `t` whose mathematical value is `n`.
pub fn make_value(t: IntegerType, n: i128) -> (r: IntegerValue)
    requires
        type_min(t) <= n <= type_max(t),
    ensures
        r == make_integer_value(t, n as int),
        integer_value_int(r) == n,
        integer_value_type(r) == t,
{
    match t {
        IntegerType::I8 => IntegerValue::I8(n as i8),
        IntegerType::U8 => IntegerValue::U8(n as u8),
        IntegerType::I16 => IntegerValue::I16(n as i16),
        IntegerType::U16 => IntegerValue::U16(n as u16),
        IntegerType::I32 => IntegerValue::I32(n as i32),
        IntegerType::U32 => IntegerValue::U32(n as u32),
        IntegerType::I64 => IntegerValue::I64(n as i64),
        IntegerType::U64 => IntegerValue::U64(n as u64),
    }
}

/// The smallest and largest value of an integer type.
pub fn type_bounds(t: IntegerType) -> (r: (i128, i128))
    ensures
        r.0 == type_min(t),
        r.1 == type_max(t),
{
    match t {
        IntegerType::I8 => (-128, 127),
        IntegerType::U8 => (0, 255),
        IntegerType::I16 => (-32768, 32767),
        IntegerType::U16 => (0, 65535),
        IntegerType::I32 => (-2147483648, 2147483647),
        IntegerType::U32 => (0, 4294967295),
        IntegerType::I64 => (-9223372036854775808, 9223372036854775807),
        IntegerType::U64 => (0, 18446744073709551615),
    }
}

/// Reads the integer literal `cs[a..b]` as a value of type `t`; `None` when
/// it is out of range (or written in hex or binary for a signed type).
pub fn build_integer_literal(base_type: IntegerType, cs: &Vec<char>, a: usize, b: usize) -> (r: Option<IntegerValue>)
    requires
        a <= b <= cs.len(),
    ensures
        r == literal_value(cs@.subrange(a as int, b as int), base_type),
{
    let ghost text = cs@.subrange(a as int, b as int);
    let radix: u32 = if b - a >= 2 && cs[a] == '0' && cs[a + 1] == 'b' {
        2
    } else if b - a >= 2 && cs[a] == '0' && cs[a + 1] == 'x' {
        16
    } else {
        10
    };
    assert(radix == literal_radix(text));
    let is_signed = match base_type {
        IntegerType::I8 | IntegerType::I16 | IntegerType::I32 | IntegerType::I64 => true,
        _ => false,
    };
    if is_signed && (radix == 16 || radix == 2) {
        return None;
    }
    let digits_start = if radix == 2 || radix == 16 { a + 2 } else { a };
    assert(cs@.subrange(digits_start as int, b as int) == (if radix != 10 { text.skip(2) } else { text }));
    let (min, max) = type_bounds(base_type);
    match from_str_radix_span(cs, digits_start, b, radix, is_signed, min, max) {
        Some(n) => Some(make_value(base_type, n)),
        None => None,
    }
}

/// Reads the array length literal `cs[a..b]` as a `usize`.
pub fn build_array_length(cs: &Vec<char>, a: usize, b: usize) -> (r: Option<usize>)
    requires
        a <= b <= cs.len(),
    ensures
        r matches Some(n) ==> array_length_value(cs@.subrange(a as int, b as int)) == Some(n as int),
        r is None ==> array_length_value(cs@.subrange(a as int, b as int)) is None,
{
    let max: i128 = usize::MAX as i128;
    match from_str_radix_span(cs, a, b, 10, false, 0, max) {
        Some(n) => Some(n as usize),
        None => None,
    }
}

} // verus!
