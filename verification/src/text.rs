//! String primitives of the standard library that the scaffolder relies on.
//!
//! Every function in this module is a thin call into `std` whose contract is
//! taken on trust; nothing else in the crate is. Where the standard library's
//! behaviour rests on Unicode tables, the result is given a name and the
//! contract says no more than that the call computes it.

use vstd::prelude::*;

verus! {

/// Whether `char::is_whitespace` holds of `c`, that is whether `c` has the
/// Unicode property `White_Space`.
pub uninterp spec fn is_whitespace(c: char) -> bool;

/// Whether `char::is_uppercase` holds of `c`, that is whether `c` has the
/// Unicode property `Uppercase`.
pub uninterp spec fn is_uppercase(c: char) -> bool;

/// The characters that `char::to_lowercase` yields for `c`: its Unicode
/// lowercase mapping, which may be longer than one character.
pub uninterp spec fn lowercase_of(c: char) -> Seq<char>;

/// Trusted: `str`'s `==` compares the two strings character by character.
#[verifier::external_body]
pub(crate) fn str_eq(a: &str, b: &str) -> (same: bool)
    ensures
        same == (a@ == b@),
{
    a == b
}

/// Trusted: `char::is_whitespace` computes the property named
/// [`is_whitespace`].
#[verifier::external_body]
pub(crate) fn char_is_whitespace(c: char) -> (blank: bool)
    ensures
        blank == is_whitespace(c),
{
    c.is_whitespace()
}

/// Trusted: `String::push` appends one character.
#[verifier::external_body]
pub(crate) fn push_char(s: &mut String, c: char)
    ensures
        final(s)@ == old(s)@.push(c),
{
    s.push(c)
}

/// Trusted: `char::is_uppercase` computes the property named
/// [`is_uppercase`].
#[verifier::external_body]
pub(crate) fn char_is_uppercase(c: char) -> (upper: bool)
    ensures
        upper == is_uppercase(c),
{
    c.is_uppercase()
}

/// Trusted: `char::to_lowercase` yields the characters named
/// [`lowercase_of`]; they are collected into a `String`.
#[verifier::external_body]
pub(crate) fn char_to_lowercase(c: char) -> (lower: String)
    ensures
        lower@ == lowercase_of(c),
{
    c.to_lowercase().collect()
}

} // verus!
