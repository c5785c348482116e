//! The one source of randomness the crate uses: fresh alphanumeric suffixes
//! for scratch-directory names.

use rand::Rng;
use vstd::prelude::*;

verus! {

/// True of the characters that a random suffix may contain: ASCII digits and
/// ASCII letters of either case.
pub open spec fn is_ascii_alphanumeric_char(c: char) -> bool {
    ('0' <= c && c <= '9') || ('a' <= c && c <= 'z') || ('A' <= c && c <= 'Z')
}

/// Relies on rand's `Alphanumeric` distribution: every sampled value is one
/// of the sixty-two ASCII characters a-z, A-Z and 0-9, so collecting `len`
/// samples gives a string of exactly `len` characters, all of them
/// alphanumeric. Nothing is assumed about which characters come back: two
/// calls may or may not agree.
#[verifier::external_body]
pub(crate) fn random_alphanumeric(len: usize) -> (r: String)
    ensures
        r@.len() == len as int,
        forall|i: int| 0 <= i < r@.len() ==> is_ascii_alphanumeric_char(#[trigger] r@[i]),
{
    rand::thread_rng().sample_iter(rand::distributions::Alphanumeric).map(char::from).take(
        len,
    ).collect()
}

} // verus!
