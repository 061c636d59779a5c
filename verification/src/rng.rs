//! The one call into the random number generator, behind a trusted wrapper.

use rand::Rng;
use vstd::prelude::*;

verus! {

/// Relies on rand::Rng::gen_range on the thread-local generator: it returns
/// a uniformly distributed value from the half-open range `lo..hi`, and
/// panics only when that range is empty.
#[verifier::external_body]
pub(crate) fn random_in_range(lo: u16, hi: u16) -> (r: u16)
    requires
        lo < hi,
    ensures
        lo <= r < hi,
{
    rand::thread_rng().gen_range(lo..hi)
}

} // verus!
