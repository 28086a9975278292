//! Errors reported while building a schema, and the source locations they
//! point at.
use vstd::prelude::*;

use crate::text::push_char;

verus! {

/// A 1-based line and column (counted in characters) in a source text.
#[derive(Debug, Clone, Copy, PartialEq, Eq, Structural)]
pub struct Location {
    pub line: usize,
    pub column: usize,
}

/// Why a schema could not be built.
#[derive(Debug, Clone, PartialEq, Eq)]
pub enum GenoError {
    /// The source file could not be read.
    Io { message: String },
    /// The source text is not in the schema language: `content` is the line
    /// on which it stops matching, `location` the place where it does.
    Parse { content: String, file: String, location: Location },
    /// An integer literal does not fit the type it is read as: `content` is
    /// the literal, `location` where it starts.
    NumberRange { content: String, file: String, location: Location },
}

/// The start of the line that holds position `p`.
pub open spec fn line_start(s: Seq<char>, p: int) -> int
    decreases p,
{
    if p <= 0 {
        0
    } else if s[p - 1] == '\n' {
        p
    } else {
        line_start(s, p - 1)
    }
}

/// The end (the newline or the end of the text) of the line that holds `p`.
pub open spec fn line_end(s: Seq<char>, p: int) -> int
    decreases s.len() - p,
{
    if p < 0 || p >= s.len() || s[p] == '\n' {
        p
    } else {
        line_end(s, p + 1)
    }
}

/// The number of newlines before position `p`.
pub open spec fn newlines_before(s: Seq<char>, p: int) -> int
    decreases p,
{
    if p <= 0 {
        0
    } else {
        newlines_before(s, p - 1) + if s[p - 1] == '\n' { 1int } else { 0int }
    }
}

/// The location of position `p`.
pub open spec fn location_at(s: Seq<char>, p: int) -> Location {
    Location { line: (newlines_before(s, p) + 1) as usize, column: (p - line_start(s, p) + 1) as usize }
}

/// The text of the line that holds `p`, without its newline.
pub open spec fn line_text(s: Seq<char>, p: int) -> Seq<char> {
    s.subrange(line_start(s, p), line_end(s, p))
}

/// The location of position `p` in `cs`.
pub fn location_of(cs: &Vec<char>, p: usize) -> (r: Location)
    requires
        p <= cs.len() < usize::MAX,
    ensures
        r == location_at(cs@, p as int),
{
    let mut i: usize = 0;
    let mut newlines: usize = 0;
    let mut start: usize = 0;
    while i < p
        invariant
            i <= p <= cs.len() < usize::MAX,
            newlines == newlines_before(cs@, i as int),
            newlines <= i,
            start == line_start(cs@, i as int),
            start <= i,
        decreases p - i,
    {
        if cs[i] == '\n' {
            newlines = newlines + 1;
            start = i + 1;
        }
        i = i + 1;
    }
    Location { line: newlines + 1, column: p - start + 1 }
}

/// The text of the line of `cs` that holds `p`.
pub fn line_text_of(cs: &Vec<char>, p: usize) -> (r: String)
    requires
        p <= cs.len(),
    ensures
        r@ == line_text(cs@, p as int),
{
    let mut start = p;
    while start > 0 && cs[start - 1] != '\n'
        invariant
            start <= p <= cs.len(),
            line_start(cs@, p as int) == line_start(cs@, start as int),
        decreases start,
    {
        start = start - 1;
    }
    let mut end = p;
    while end < cs.len() && cs[end] != '\n'
        invariant
            p <= end <= cs.len(),
            line_end(cs@, p as int) == line_end(cs@, end as int),
        decreases cs.len() - end,
    {
        end = end + 1;
    }
    let mut r = String::new();
    let mut i = start;
    while i < end
        invariant
            start <= i <= end <= cs.len(),
            r@ == cs@.subrange(start as int, i as int),
        decreases end - i,
    {
        push_char(&mut r, cs[i]);
        assert(cs@.subrange(start as int, i + 1) == cs@.subrange(start as int, i as int).push(cs@[i as int]));
        i = i + 1;
    }
    r
}

} // verus!
