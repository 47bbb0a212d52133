//! Random draws, taken from the `rand` crate.

use rand::rngs::ThreadRng;
use rand::seq::SliceRandom;
use std::collections::VecDeque;
use vstd::prelude::*;

verus! {

/// `rand::rngs::ThreadRng`, the handle on the thread-local generator,
/// carried through without looking inside.
#[verifier::external_type_specification]
#[verifier::external_body]
pub struct ExThreadRng(ThreadRng);

/// `picks[k] == items[idx[k]]` for pairwise distinct positions `idx` of `items`.
pub open spec fn selects_at<X>(items: Seq<X>, picks: Seq<X>, idx: Seq<int>) -> bool {
    &&& idx.len() == picks.len()
    &&& idx.no_duplicates()
    &&& forall|k: int| 0 <= k < idx.len() ==> 0 <= #[trigger] idx[k] < items.len() && picks[k] == items[idx[k]]
}

/// Every pick is an item of `items`, and no position of `items` is picked twice.
pub open spec fn drawn_without_repetition<X>(items: Seq<X>, picks: Seq<X>) -> bool {
    exists|idx: Seq<int>| #[trigger] selects_at(items, picks, idx)
}

/// `rand::thread_rng`: a handle on the thread-local generator. Nothing is
/// promised of it; the draws made with it are random.
#[verifier::external_body]
pub(crate) fn thread_rng() -> ThreadRng {
    rand::thread_rng()
}

/// `rand::seq::index::sample`, with its `IndexVec` turned into a `Vec<usize>`:
/// `amount` pairwise distinct indices, each below `length`, in random order.
/// The crate panics when `amount > length`; above `u32::MAX` it samples by
/// rejection, which asserts (in debug builds) `amount < length`. Both inputs
/// are excluded.
#[verifier::external_body]
pub(crate) fn sample_indices(rng: &mut ThreadRng, length: usize, amount: usize) -> (indices: Vec<usize>)
    requires
        amount <= length,
        amount < length || length <= u32::MAX,
    ensures
        indices@.len() == amount,
        indices@.no_duplicates(),
        forall|k: int| 0 <= k < amount ==> #[trigger] indices@[k] < length,
{
    rand::seq::index::sample(rng, length, amount).into_vec()
}

/// `SliceRandom::choose_multiple` on the deque's contents (laid out as one
/// slice by `VecDeque::make_contiguous`, which keeps their order), with the
/// chosen items copied out: `min(amount, len)` items taken from pairwise
/// distinct positions, in random order. It draws the positions with
/// `index::sample(len, min(amount, len))`, which asserts (in debug builds)
/// `min(amount, len) < len` above `u32::MAX` items; that input is excluded.
#[verifier::external_body]
pub(crate) fn choose_multiple_copied<X: Copy>(items: &mut VecDeque<X>, rng: &mut ThreadRng, amount: usize) -> (picks: Vec<X>)
    requires
        amount < old(items)@.len() || old(items)@.len() <= u32::MAX,
    ensures
        final(items)@ == old(items)@,
        picks@.len() == if amount <= old(items)@.len() { amount as nat } else { old(items)@.len() },
        drawn_without_repetition(old(items)@, picks@),
{
    items.make_contiguous().choose_multiple(rng, amount).copied().collect()
}

} // verus!
