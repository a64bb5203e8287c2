use vstd::prelude::*;

verus! {

/// The set of characters that `char::is_alphabetic` accepts. The Unicode
/// `Alphabetic` property is a function of the character alone; its table is
/// left unstated here.
pub uninterp spec fn is_alphabetic_char(c: char) -> bool;

/// The set of characters that `char::is_whitespace` accepts. The Unicode
/// `White_Space` property is a function of the character alone; its table is
/// left unstated here.
pub uninterp spec fn is_whitespace_char(c: char) -> bool;

/// Relies on `char::is_alphabetic`: whether `c` has the Unicode `Alphabetic`
/// property, a pure function of `c`.
#[verifier::external_body]
pub(crate) fn char_is_alphabetic(c: char) -> (r: bool)
    ensures
        r == is_alphabetic_char(c),
{
    c.is_alphabetic()
}

/// Relies on `char::is_whitespace`: whether `c` has the Unicode `White_Space`
/// property, a pure function of `c`.
#[verifier::external_body]
pub(crate) fn char_is_whitespace(c: char) -> (r: bool)
    ensures
        r == is_whitespace_char(c),
{
    c.is_whitespace()
}

} // verus!
