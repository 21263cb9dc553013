//! The calls into the `rand` crate. Verus takes the contracts in this file on
//! trust; none of them says which value is drawn, only where it lies.

use vstd::prelude::*;
use rand::Rng;
use rand::seq::SliceRandom;

verus! {

/// `rand::random::<usize>()`: a value drawn from the whole range of `usize`.
/// Nothing is promised of it.
#[verifier::external_body]
pub(crate) fn random_usize() -> usize {
    rand::random::<usize>()
}

/// `Rng::gen_range` on the thread-local generator with the half-open range
/// `0..bound`: the value drawn lies in that range. `gen_range` panics on an
/// empty range, which `bound > 0` leaves out.
#[verifier::external_body]
pub(crate) fn random_below(bound: usize) -> (r: usize)
    requires
        bound > 0,
    ensures
        r < bound,
{
    rand::thread_rng().gen_range(0..bound)
}

/// `SliceRandom::choose` on the thread-local generator: `None` for an empty
/// slice, otherwise one of the slice's elements.
#[verifier::external_body]
pub(crate) fn choose_one(items: &Vec<usize>) -> (r: Option<usize>)
    ensures
        items@.len() == 0 ==> r is None,
        items@.len() > 0 ==> r is Some && items@.contains(r->Some_0),
{
    items.choose(&mut rand::thread_rng()).copied()
}

/// `rand::seq::index::sample` on the thread-local generator, the sampler
/// behind `SliceRandom::choose_multiple`: exactly `amount` distinct indices
/// below `length`. It panics when `amount > length`, which the precondition
/// leaves out.
#[verifier::external_body]
pub(crate) fn sample_indices(length: usize, amount: usize) -> (r: Vec<usize>)
    requires
        amount <= length,
    ensures
        r@.len() == amount,
        forall|i: int| 0 <= i < r@.len() ==> r@[i] < length,
        forall|i: int, j: int| 0 <= i < j < r@.len() ==> r@[i] != r@[j],
{
    rand::seq::index::sample(&mut rand::thread_rng(), length, amount).into_vec()
}

} // verus!
