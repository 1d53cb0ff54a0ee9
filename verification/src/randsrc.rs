//! The library's only source of randomness, behind a trusted wrapper.

use vstd::prelude::*;

verus! {

/// Relies on `fastrand::i64`: a draw from the thread-local generator,
/// uniform within the given inclusive range. It panics only on an empty
/// range, which the precondition rules out. Nothing beyond membership in the
/// range can be promised of a random draw.
#[verifier::external_body]
pub(crate) fn rand_in_range(lo: i64, hi: i64) -> (r: i64)
    requires
        lo <= hi,
    ensures
        lo <= r <= hi,
{
    fastrand::i64(lo..=hi)
}

} // verus!
