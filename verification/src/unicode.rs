//! Unicode-dependent text transforms, each a stateless pure function of its
//! input. Their results rest on Unicode character tables, so they are not
//! restated here: each gets a name, the call is trusted to return that name's
//! value, and the validator's contracts speak of the names.

use vstd::prelude::*;
use unicode_normalization::UnicodeNormalization;

verus! {

/// The NFKC normalization (compatibility decomposition followed by canonical
/// composition, UAX #15) of a sequence of characters.
pub uninterp spec fn nfkc_of(s: Seq<char>) -> Seq<char>;

/// The Unicode lowercase conversion of a sequence of characters.
pub uninterp spec fn lower_of(s: Seq<char>) -> Seq<char>;

/// The sequence with leading and trailing Unicode whitespace removed.
pub uninterp spec fn trim_of(s: Seq<char>) -> Seq<char>;

/// Whether a character is alphanumeric (Unicode `Alphabetic` or a number).
pub uninterp spec fn char_alphanumeric(c: char) -> bool;

/// Relies on `unicode_normalization::UnicodeNormalization::nfkc`: the NFKC
/// normal form, a function of the characters alone. Per UAX #15 the normal
/// forms are idempotent, so the result is its own normalization.
#[verifier::external_body]
pub fn nfkc(s: &str) -> (r: String)
    ensures
        r@ == nfkc_of(s@),
        nfkc_of(r@) == r@,
{
    s.nfkc().collect()
}

/// Relies on `str::to_lowercase`: the Unicode lowercase equivalent of the
/// string, a function of the characters alone.
#[verifier::external_body]
pub fn to_lowercase(s: &str) -> (r: String)
    ensures
        r@ == lower_of(s@),
{
    s.to_lowercase()
}

/// Relies on `str::trim`: the string without leading and trailing
/// whitespace, a function of the characters alone; the result is a
/// subsequence of the input, so trimming can only shorten it.
#[verifier::external_body]
pub fn trim(s: &str) -> (r: &str)
    ensures
        r@ == trim_of(s@),
        r@.len() <= s@.len(),
{
    s.trim()
}

/// Relies on `char::is_alphanumeric`, a function of the character alone.
#[verifier::external_body]
pub fn is_alphanumeric(c: char) -> (r: bool)
    ensures
        r == char_alphanumeric(c),
{
    c.is_alphanumeric()
}

} // verus!
