//! The crate's single source of randomness, used for spawn positions, map
//! generation, and AI retargeting.

use rand::Rng;
use vstd::prelude::*;

verus! {

/// Relies on rand::thread_rng and rand::Rng::gen_range over `0..bound`: the
/// draw is uniform and lies below `bound`. gen_range panics on an empty
/// range, which the precondition excludes; nothing more can be promised of
/// a random value.
#[verifier::external_body]
pub(crate) fn random_below(bound: u64) -> (r: u64)
    requires
        1 <= bound,
    ensures
        r < bound,
{
    rand::thread_rng().gen_range(0..bound)
}

} // verus!
