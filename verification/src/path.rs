//! Request-path normalization: percent-decode and lowercase the incoming
//! path; a failed decode degrades to the raw path, lowercased.

use vstd::prelude::*;

use crate::text::{lower_of, percent_decode, percent_decoded, to_lowercase};

verus! {

/// The normalized form of a request path: its percent-decoded text
/// lowercased, or the raw path lowercased when decoding fails.
pub open spec fn normalized_path_of(p: Seq<char>) -> Seq<char> {
    match percent_decoded(p) {
        Some(d) => lower_of(d),
        None => lower_of(p),
    }
}

/// Percent-decodes and lowercases a request path for case- and
/// encoding-insensitive comparison; on a malformed encoding the raw path is
/// lowercased unchanged.
pub fn normalize_path(path: &str) -> (r: String)
    ensures
        r@ == normalized_path_of(path@),
{
    match percent_decode(path) {
        Some(d) => to_lowercase(d.as_str()),
        None => to_lowercase(path),
    }
}

} // verus!
