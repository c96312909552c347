//! Random draws, taken from the thread-local generator of `rand`.
use rand::Rng;
use vstd::prelude::*;

verus! {

/// Relies on rand's `thread_rng().gen_range(low..=high)`: a value drawn
/// uniformly from the inclusive range. The range must not be empty, else the
/// call panics.
#[verifier::external_body]
pub(crate) fn draw_between(low: i32, high: i32) -> (r: i32)
    requires
        low <= high,
    ensures
        low <= r <= high,
{
    rand::thread_rng().gen_range(low..=high)
}

} // verus!
