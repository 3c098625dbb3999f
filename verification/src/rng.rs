//! The single source of randomness for the library.
//!
//! Every random decision in the crate — weighted sampling, door selection,
//! enemy placement, combat resolution — is derived in verified code from
//! uniform draws made here.

use rand::Rng;
use vstd::prelude::*;

verus! {

/// Draws a uniformly random value below `n` from the thread-local generator.
///
/// Relies on rand's `Rng::gen_range` over the half-open range `0..n`: it
/// returns a value of that range and panics only when the range is empty,
/// which the precondition rules out. Nothing more is assumed of the draw:
/// callers must hold for every value below `n`.
#[verifier::external_body]
pub(crate) fn random_below(n: u64) -> (r: u64)
    requires
        1 <= n,
    ensures
        r < n,
{
    rand::thread_rng().gen_range(0..n)
}

} // verus!
