use vstd::prelude::*;

use rand::Rng;

verus! {

/// Relies on rand's thread-local generator and `Rng::gen_range` over the
/// range `0..n`: the sample always lies in that range, and the call panics
/// only on an empty range, which the precondition rules out. The draw is
/// random, so nothing more is stated: callers must hold for every value
/// below `n`.
#[verifier::external_body]
pub(crate) fn random_below(n: usize) -> (r: usize)
    requires
        n > 0,
    ensures
        r < n,
{
    let mut rng = rand::thread_rng();
    rng.gen_range(0..n)
}

} // verus!
