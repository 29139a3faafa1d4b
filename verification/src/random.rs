//! The random source: the thread-local generator of the `rand` crate and the
//! two sequence operations the sampling strategies draw on.
//!
//! Nothing here is proved. Each contract states only what holds of every
//! outcome, whatever numbers the generator produces.

use vstd::prelude::*;
use rand::rngs::ThreadRng;
use rand::seq::IteratorRandom;
use rand::seq::SliceRandom;
use crate::selection::{is_selection_of, is_permutation_of};

verus! {

/// `rand::rngs::ThreadRng`, carried through as an opaque value.
#[verifier::external_type_specification]
#[verifier::external_body]
pub struct ExThreadRng(ThreadRng);

/// `rand::thread_rng` hands out the calling thread's generator. Nothing is
/// claimed about the numbers it will produce.
pub assume_specification[ rand::thread_rng ]() -> (rng: ThreadRng);

/// `IteratorRandom::choose_multiple` on the items of `items`, in their order.
///
/// Claimed: the reservoir it returns holds exactly `amount` items when the
/// source has that many, and each slot holds an item taken from a different
/// position of the source. Which positions, and in what order, is left open.
#[verifier::external_body]
pub(crate) fn choose_multiple<T>(items: Vec<T>, rng: &mut ThreadRng, amount: usize) -> (chosen:
    Vec<T>)
    requires
        amount <= items@.len(),
    ensures
        chosen@.len() == amount,
        is_selection_of(chosen@, items@),
{
    items.into_iter().choose_multiple(rng, amount)
}

/// `SliceRandom::shuffle` on the whole vector.
///
/// Claimed: the call only swaps items, so the vector afterwards is a
/// rearrangement of the vector before. Which one is left open.
#[verifier::external_body]
pub(crate) fn shuffle<T>(items: &mut Vec<T>, rng: &mut ThreadRng)
    ensures
        is_permutation_of(final(items)@, old(items)@),
{
    items.shuffle(rng);
}

} // verus!
