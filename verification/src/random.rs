//! Random choice: the thread-local generator of the `rand` crate, and
//! rejection sampling on top of it.

use vstd::prelude::*;
use rand::rngs::ThreadRng;
use rand::RngCore;

verus! {

/// The handle of `rand`'s thread-local generator. Nothing is known of what
/// is inside.
#[verifier::external_type_specification]
#[verifier::external_body]
pub struct ExThreadRng(ThreadRng);

/// `rand::thread_rng` hands out the generator of the current thread, which
/// is seeded from the operating system on first use. Nothing is claimed of
/// the handle. The call panics if the system gives no entropy.
pub assume_specification[ rand::thread_rng ]() -> (rng: ThreadRng);

/// `RngCore::next_u32` of `rand::rngs::ThreadRng`: the next 32 random bits.
/// Nothing is claimed of the number that comes back, so what is proved of
/// its callers holds for every number.
#[verifier::external_body]
fn next_u32(rng: &mut ThreadRng) -> (draw: u32) {
    rng.next_u32()
}

/// How often a rejection loop draws before it gives up.
pub const SAMPLE_ATTEMPTS: usize = 1000;

/// The candidate that a draw stands for among `bound` candidates.
pub open spec fn candidate_of(draw: u32, bound: usize) -> int {
    draw as int % bound as int
}

/// Maps a draw to one of `bound` candidates.
pub fn position_of_draw(draw: u32, bound: usize) -> (position: usize)
    requires
        bound > 0,
    ensures
        position == candidate_of(draw, bound),
        position < bound,
{
    draw as usize % bound
}

/// A random candidate among `bound`.
pub fn random_below(bound: usize) -> (position: usize)
    requires
        bound > 0,
    ensures
        position < bound,
{
    let mut rng = rand::thread_rng();
    let draw: u32 = next_u32(&mut rng);
    position_of_draw(draw, bound)
}

/// Draws random candidates among `bound` until `accept` takes one, at most
/// `attempts` times.
///
/// `None` means that every candidate that was drawn was rejected. So where
/// there is a candidate, a draw is allowed and `accept` rejects nothing,
/// the first draw is returned.
pub fn sample_until<F: Fn(usize) -> bool>(bound: usize, attempts: usize, accept: F) -> (found:
    Option<usize>)
    requires
        forall|candidate: usize| candidate < bound ==> call_requires(accept, (candidate,)),
    ensures
        found matches Some(candidate) ==> candidate < bound && call_ensures(
            accept,
            (candidate,),
            true,
        ),
        bound == 0 || attempts == 0 ==> found is None,
        found is None ==> bound == 0 || attempts == 0 || exists|candidate: usize|
            candidate < bound && #[trigger] call_ensures(accept, (candidate,), false),
{
    if bound == 0 {
        return None;
    }
    let mut left: usize = attempts;
    while left > 0
        invariant
            bound > 0,
            left <= attempts,
            forall|candidate: usize| candidate < bound ==> call_requires(accept, (candidate,)),
            left < attempts ==> exists|candidate: usize|
                candidate < bound && #[trigger] call_ensures(accept, (candidate,), false),
        decreases left,
    {
        let candidate: usize = random_below(bound);
        if accept(candidate) {
            return Some(candidate);
        }
        assert(call_ensures(accept, (candidate,), false));
        left = left - 1;
    }
    None
}

} // verus!
