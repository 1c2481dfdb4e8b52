//! Random draws. They come from the `rand` crate's thread-local generator;
//! this module states, without proof, what holds of every draw.

use vstd::prelude::*;

verus! {

/// `Rng::gen_range` on `rand::thread_rng()`, for a half-open range of integers:
/// the draw lies in the range. The range must not be empty.
#[verifier::external_body]
pub(crate) fn random_in(low: u64, high: u64) -> (r: u64)
    requires
        low < high,
    ensures
        low <= r < high,
{
    rand::Rng::gen_range(&mut rand::thread_rng(), low..high)
}

/// `SliceRandom::choose` on `rand::thread_rng()`: nothing of an empty list,
/// else one of its elements.
#[verifier::external_body]
pub(crate) fn choose_line(lines: &Vec<String>) -> (r: Option<&String>)
    ensures
        r is None <==> lines@.len() == 0,
        r is Some ==> lines@.contains(*r.unwrap()),
{
    rand::seq::SliceRandom::choose(lines.as_slice(), &mut rand::thread_rng())
}

} // verus!
