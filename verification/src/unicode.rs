//! What the standard library knows about the case of a character.
//!
//! The Unicode tables are far too large to restate, so each of the five
//! questions the converters ask of a character gets a name here. Every name
//! is a function of the character alone. The converters' contracts are
//! written over these names; nothing else is assumed about them.

use vstd::prelude::*;

verus! {

/// Whether Unicode counts `c` as `Alphabetic`.
pub uninterp spec fn is_alpha(c: char) -> bool;

/// Whether Unicode counts `c` as `Lowercase`.
pub uninterp spec fn is_lower(c: char) -> bool;

/// Whether Unicode counts `c` as `Uppercase`.
pub uninterp spec fn is_upper(c: char) -> bool;

/// The characters that `c` becomes when it is upper-cased.
pub uninterp spec fn uppercase_form(c: char) -> Seq<char>;

/// The characters that `c` becomes when it is lower-cased.
pub uninterp spec fn lowercase_form(c: char) -> Seq<char>;

/// `char::is_alphabetic` answers from the Unicode tables compiled into the
/// standard library. Assumed: the answer depends on the character alone.
pub assume_specification[ char::is_alphabetic ](c: char) -> (b: bool)
    ensures
        b == is_alpha(c),
;

/// `char::is_lowercase` answers from the Unicode tables compiled into the
/// standard library. Assumed: the answer depends on the character alone.
pub assume_specification[ char::is_lowercase ](c: char) -> (b: bool)
    ensures
        b == is_lower(c),
;

/// `char::is_uppercase` answers from the Unicode tables compiled into the
/// standard library. Assumed: the answer depends on the character alone.
pub assume_specification[ char::is_uppercase ](c: char) -> (b: bool)
    ensures
        b == is_upper(c),
;

/// Collects what `char::to_uppercase` yields. The mapping is unconditional and
/// takes no locale into account. Assumed: the characters yielded depend on
/// `c` alone.
#[verifier::external_body]
pub(crate) fn to_uppercase(c: char) -> (form: Vec<char>)
    ensures
        form@ == uppercase_form(c),
{
    c.to_uppercase().collect()
}

/// Collects what `char::to_lowercase` yields. The mapping is unconditional and
/// takes no locale into account. Assumed: the characters yielded depend on
/// `c` alone.
#[verifier::external_body]
pub(crate) fn to_lowercase(c: char) -> (form: Vec<char>)
    ensures
        form@ == lowercase_form(c),
{
    c.to_lowercase().collect()
}

/// `String::push` appends one character to the end of the string.
pub assume_specification[ String::push ](s: &mut String, ch: char)
    ensures
        final(s)@ == old(s)@.push(ch),
;

} // verus!
