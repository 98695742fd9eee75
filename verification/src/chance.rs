//! The source of chance that decides which way a frog jumps.

use vstd::prelude::*;

verus! {

/// Throws a coin by calling `rand::random::<bool>()`, which draws from the
/// random number generator of the calling thread. Nothing is claimed of the
/// outcome: two throws may differ, and either side may come up. The call
/// panics where the system fails to give the generator its seed: at the
/// first throw of a thread, and whenever the generator seeds itself anew
/// after it has given out its share of numbers.
#[verifier::external_body]
pub(crate) fn toss() -> (coin: bool) {
    rand::random::<bool>()
}

} // verus!
