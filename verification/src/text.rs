//! Trusted boundary to outside text routines: Unicode lowercasing and
//! whitespace trimming from std, and percent-decoding from `urlencoding`.
//! Each result is a function of the input characters alone, so it is given
//! an uninterpreted name that the callers' contracts build on.

use vstd::prelude::*;

verus! {

/// The Unicode-lowercased form of a character sequence, as
/// `str::to_lowercase` computes it.
pub uninterp spec fn lower_of(s: Seq<char>) -> Seq<char>;

/// Relies on str::to_lowercase: the lowercase mapping depends on the
/// characters alone.
#[verifier::external_body]
pub(crate) fn to_lowercase(s: &str) -> (r: String)
    ensures
        r@ == lower_of(s@),
{
    s.to_lowercase()
}

/// A character sequence with leading and trailing whitespace removed, as
/// `str::trim` computes it.
pub uninterp spec fn trim_of(s: Seq<char>) -> Seq<char>;

/// Relies on str::trim: which characters count as whitespace depends on the
/// characters alone.
#[verifier::external_body]
pub(crate) fn trim_str<'a>(s: &'a str) -> (r: &'a str)
    ensures
        r@ == trim_of(s@),
{
    s.trim()
}

/// The percent-decoded form of a character sequence, or `None` when the
/// decoded bytes are not valid UTF-8, as `urlencoding::decode` computes it.
pub uninterp spec fn percent_decoded(s: Seq<char>) -> Option<Seq<char>>;

/// Relies on urlencoding::decode: it decodes `%xx` escapes, passes malformed
/// escapes through unchanged, and fails exactly when the decoded bytes are
/// not valid UTF-8 -- a function of the input characters alone.
#[verifier::external_body]
pub(crate) fn percent_decode(s: &str) -> (r: Option<String>)
    ensures
        r.deep_view() == percent_decoded(s@),
{
    match urlencoding::decode(s) {
        Ok(d) => Some(d.into_owned()),
        Err(_) => None,
    }
}

/// Relies on String::push: it appends the given character to the end of the
/// string.
pub assume_specification[ String::push ](s: &mut String, c: char)
    ensures
        final(s)@ == old(s)@.push(c),
;

} // verus!
