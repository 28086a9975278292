//! Character-level helpers: case mapping, decimal printing, and conversions
//! between `&str`, `String` and `Vec<char>`.
use vstd::prelude::*;

verus! {

/// What `char::to_uppercase` yields for `c`.
pub uninterp spec fn unicode_uppercase(c: char) -> Seq<char>;

/// What `char::to_lowercase` yields for `c`.
pub uninterp spec fn unicode_lowercase(c: char) -> Seq<char>;

/// What `char::is_uppercase` answers for `c`.
pub uninterp spec fn unicode_is_uppercase(c: char) -> bool;

/// Calls `char::to_uppercase`. The Unicode case tables are not written out
/// here: the result is only named, as a function of `c`.
#[verifier::external_body]
fn std_to_uppercase(c: char) -> (r: Vec<char>)
    ensures
        r@ == unicode_uppercase(c),
{
    c.to_uppercase().collect()
}

/// Calls `char::to_lowercase`. The result is only named, as a function of `c`.
#[verifier::external_body]
fn std_to_lowercase(c: char) -> (r: Vec<char>)
    ensures
        r@ == unicode_lowercase(c),
{
    c.to_lowercase().collect()
}

/// Calls `char::is_uppercase`. The result is only named, as a function of `c`.
#[verifier::external_body]
fn std_is_uppercase(c: char) -> (r: bool)
    ensures
        r == unicode_is_uppercase(c),
{
    c.is_uppercase()
}

/// Calls `String::push`, which appends one character.
#[verifier::external_body]
pub fn push_char(s: &mut String, c: char)
    ensures
        final(s)@ == old(s)@.push(c),
{
    s.push(c);
}

pub open spec fn is_ascii_char(c: char) -> bool {
    (c as u32) < 128
}

pub open spec fn is_ascii_upper(c: char) -> bool {
    'A' <= c <= 'Z'
}

pub open spec fn is_ascii_lower(c: char) -> bool {
    'a' <= c <= 'z'
}

/// Whether `c` is an uppercase letter. For ASCII this is `A`..=`Z`; beyond
/// ASCII it is Unicode's `Uppercase` property.
pub open spec fn is_upper(c: char) -> bool {
    if is_ascii_char(c) {
        is_ascii_upper(c)
    } else {
        unicode_is_uppercase(c)
    }
}

/// The uppercase mapping of `c` (one or more characters).
pub open spec fn upper_text(c: char) -> Seq<char> {
    if is_ascii_lower(c) {
        seq![((c as u32) - 32) as char]
    } else if is_ascii_char(c) {
        seq![c]
    } else {
        unicode_uppercase(c)
    }
}

/// The lowercase mapping of `c` (one or more characters).
pub open spec fn lower_text(c: char) -> Seq<char> {
    if is_ascii_upper(c) {
        seq![((c as u32) + 32) as char]
    } else if is_ascii_char(c) {
        seq![c]
    } else {
        unicode_lowercase(c)
    }
}

/// Appends every character of `v` to `s`.
pub fn push_chars(s: &mut String, v: &Vec<char>)
    ensures
        final(s)@ == old(s)@ + v@,
{
    let ghost start = s@;
    for i in 0..v.len()
        invariant
            s@ == start + v@.take(i as int),
    {
        push_char(s, v[i]);
        assert(v@.take(i + 1) == v@.take(i as int).push(v@[i as int]));
    }
    assert(v@.take(v.len() as int) == v@);
}

/// The characters of `s`, in order.
pub fn str_to_chars(s: &str) -> (v: Vec<char>)
    ensures
        v@ == s@,
{
    let mut v: Vec<char> = Vec::new();
    for c in it: s.chars()
        invariant
            v@ == it.seq().take(it.index() as int),
            it.seq() == s@,
    {
        v.push(c);
    }
    v
}

/// Appends the uppercase mapping of `c` to `s`.
pub fn push_upper(s: &mut String, c: char)
    ensures
        final(s)@ == old(s)@ + upper_text(c),
{
    if 'a' <= c && c <= 'z' {
        let u: u8 = (c as u8) - 32;
        push_char(s, u as char);
        assert(((c as u32) - 32) as char == u as char);
    } else if (c as u32) < 128 {
        push_char(s, c);
    } else {
        let v = std_to_uppercase(c);
        push_chars(s, &v);
    }
}

/// Appends the lowercase mapping of `c` to `s`.
pub fn push_lower(s: &mut String, c: char)
    ensures
        final(s)@ == old(s)@ + lower_text(c),
{
    if 'A' <= c && c <= 'Z' {
        let u: u8 = (c as u8) + 32;
        push_char(s, u as char);
        assert(((c as u32) + 32) as char == u as char);
    } else if (c as u32) < 128 {
        push_char(s, c);
    } else {
        let v = std_to_lowercase(c);
        push_chars(s, &v);
    }
}

/// Whether `c` is an uppercase letter.
pub fn char_is_upper(c: char) -> (r: bool)
    ensures
        r == is_upper(c),
{
    if (c as u32) < 128 {
        'A' <= c && c <= 'Z'
    } else {
        std_is_uppercase(c)
    }
}

/// The decimal digit character for `d < 10`.
pub open spec fn digit_char(d: nat) -> char {
    ((d + 48) as u32) as char
}

/// The decimal representation of a natural number, without leading zeros.
pub open spec fn nat_text(n: nat) -> Seq<char>
    decreases n,
{
    if n < 10 {
        seq![digit_char(n)]
    } else {
        nat_text(n / 10) + seq![digit_char(n % 10)]
    }
}

/// The decimal representation of an integer, with a `-` in front of
/// negative numbers.
pub open spec fn int_text(i: int) -> Seq<char> {
    if i < 0 {
        seq!['-'] + nat_text((-i) as nat)
    } else {
        nat_text(i as nat)
    }
}

/// Appends the decimal representation of `n` to `s`.
pub fn push_u64_text(s: &mut String, n: u64)
    ensures
        final(s)@ == old(s)@ + nat_text(n as nat),
    decreases n,
{
    if n >= 10 {
        push_u64_text(s, n / 10);
    }
    let d: u8 = (n % 10) as u8;
    let c: char = (d + 48) as char;
    assert(c == digit_char((n % 10) as nat));
    push_char(s, c);
}

/// Appends the decimal representation of `n` to `s`.
pub fn push_i64_text(s: &mut String, n: i64)
    ensures
        final(s)@ == old(s)@ + int_text(n as int),
{
    if n < 0 {
        push_char(s, '-');
        let m: u64 = (0i128 - (n as i128)) as u64;
        push_u64_text(s, m);
    } else {
        push_u64_text(s, n as u64);
    }
}

} // verus!
