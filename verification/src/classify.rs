use vstd::prelude::*;

verus! {

/// How a character behaves for word motions: a word constituent, a
/// punctuation character, or whitespace.
///
/// A *run* is a maximal span of characters of one kind; word motions move
/// between runs.
#[derive(Clone, Copy, Debug, PartialEq, Eq, Structural)]
pub enum RunKind {
    Word,
    Punct,
    Space,
}

/// The Unicode `White_Space` code points: the set that
/// `char::is_whitespace` accepts.
pub open spec fn is_space_char(c: char) -> bool {
    let u = c as u32;
    u == 0x20 || (0x9 <= u && u <= 0xd) || u == 0x85 || u == 0xa0 || u == 0x1680 || (0x2000 <= u
        && u <= 0x200a) || u == 0x2028 || u == 0x2029 || u == 0x202f || u == 0x205f || u == 0x3000
}

/// Whitespace test over the fixed `White_Space` list above.
pub fn is_space(c: char) -> (r: bool)
    ensures
        r == is_space_char(c),
{
    let u = c as u32;
    u == 0x20 || (0x9 <= u && u <= 0xd) || u == 0x85 || u == 0xa0 || u == 0x1680 || (0x2000 <= u
        && u <= 0x200a) || u == 0x2028 || u == 0x2029 || u == 0x202f || u == 0x205f || u == 0x3000
}

/// What `char::is_alphanumeric` returns for each character.  The Unicode
/// Alphabetic and Number categories are far too large to write out, so the
/// result is only given this name.
pub uninterp spec fn alnum(c: char) -> bool;

/// Relies on `char::is_alphanumeric`: membership of `c` in the Unicode
/// Alphabetic or Number categories, a function of `c` alone.
#[verifier::external_body]
pub fn is_alnum(c: char) -> (r: bool)
    ensures
        r == alnum(c),
{
    c.is_alphanumeric()
}

/// The run kind of `c`.  Whitespace always stands alone; with `big` set
/// (WORD motions) every other character is a word constituent; without it
/// (word motions) alphanumerics and `_` are word constituents and all other
/// characters are punctuation.
pub open spec fn class_of(c: char, big: bool) -> RunKind {
    if is_space_char(c) {
        RunKind::Space
    } else if big {
        RunKind::Word
    } else if alnum(c) || c == '_' {
        RunKind::Word
    } else {
        RunKind::Punct
    }
}

/// Classify one character for word or WORD motions.
pub fn class(c: char, big: bool) -> (k: RunKind)
    ensures
        k == class_of(c, big),
{
    if is_space(c) {
        RunKind::Space
    } else if big {
        RunKind::Word
    } else if is_alnum(c) || c == '_' {
        RunKind::Word
    } else {
        RunKind::Punct
    }
}

} // verus!
