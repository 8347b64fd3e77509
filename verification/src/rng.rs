//! Trusted access to the process-wide random number generator.

use vstd::prelude::*;

verus! {

/// Relies on `rand::random`: one draw from the thread-local generator.
/// Nothing is promised of the value; callers must not depend on it.
#[verifier::external_body]
pub(crate) fn random_u64() -> u64 {
    rand::random()
}

/// Relies on `rand::random_range` over `1..10000`: the draw lies within the
/// requested non-empty range.
#[verifier::external_body]
pub(crate) fn random_name_tag() -> (r: u32)
    ensures
        1 <= r < 10000,
{
    rand::random_range(1u32..10000)
}

} // verus!
