//! Replay memory of the DQN trainer: a bounded FIFO of transitions from which
//! training batches are drawn at random.

use crate::rng::{drawn_without_repetition, sample_indices, selects_at, thread_rng};
use std::collections::VecDeque;
use vstd::prelude::*;

verus! {

/// One interaction between the agent and the environment. `T` is the tensor
/// type of the network library; a terminal step has no `next_state`.
#[derive(Clone, Copy)]
pub struct Transition<T> {
    pub state: T,
    pub action: T,
    pub next_state: Option<T>,
    pub reward: T,
}

impl<T> Transition<T> {
    pub fn new(state: T, action: T, next_state: Option<T>, reward: T) -> (t: Transition<T>)
        ensures
            t.state == state,
            t.action == action,
            t.next_state == next_state,
            t.reward == reward,
    {
        Transition { state, action, next_state, reward }
    }
}

/// The contents after pushing `x` onto `contents` in a memory of capacity
/// `cap`: a full, non-empty memory first drops its oldest entry.
pub open spec fn pushed<X>(cap: nat, contents: Seq<X>, x: X) -> Seq<X> {
    if contents.len() == cap && contents.len() > 0 {
        contents.drop_first().push(x)
    } else {
        contents.push(x)
    }
}

/// The contents of a memory of capacity `cap` after pushing, in order, the
/// items of `items` onto an empty one.
pub open spec fn filled<X>(cap: nat, items: Seq<X>) -> Seq<X>
    decreases items.len(),
{
    if items.len() == 0 {
        Seq::empty()
    } else {
        pushed(cap, filled(cap, items.drop_last()), items.last())
    }
}

/// The last `cap` items of `items` (all of them if there are fewer).
pub open spec fn latest<X>(cap: nat, items: Seq<X>) -> Seq<X> {
    if items.len() <= cap {
        items
    } else {
        items.subrange(items.len() - cap, items.len() as int)
    }
}

/// Bounded FIFO of transitions. Once it holds `max_capacity` of them, each
/// push evicts the oldest.
pub struct ReplayMemory<T> {
    memory_buffer: VecDeque<Transition<T>>,
    max_capacity: usize,
}

impl<T> View for ReplayMemory<T> {
    type V = Seq<Transition<T>>;

    /// The stored transitions, oldest first.
    closed spec fn view(&self) -> Seq<Transition<T>> {
        self.memory_buffer@
    }
}

impl<T: Copy> ReplayMemory<T> {
    /// The capacity the memory was made with.
    pub closed spec fn capacity(&self) -> nat {
        self.max_capacity as nat
    }

    /// A memory of positive capacity never holds more than its capacity.
    pub closed spec fn well_formed(&self) -> bool {
        self.max_capacity > 0 ==> self.memory_buffer@.len() <= self.max_capacity
    }

    pub fn new(max_capacity: usize) -> (memory: ReplayMemory<T>)
        ensures
            memory@ == Seq::<Transition<T>>::empty(),
            memory.capacity() == max_capacity,
            memory.well_formed(),
    {
        ReplayMemory { memory_buffer: VecDeque::with_capacity(max_capacity), max_capacity }
    }

    /// Appends `transition`. When the memory already holds `max_capacity`
    /// transitions the oldest one leaves first, and is handed back so that
    /// the caller can release its tensors.
    pub fn push_transition(&mut self, transition: Transition<T>) -> (evicted: Option<Transition<T>>)
        requires
            old(self).well_formed(),
        ensures
            final(self).well_formed(),
            final(self).capacity() == old(self).capacity(),
            final(self)@ == pushed(old(self).capacity(), old(self)@, transition),
            evicted == if old(self)@.len() == old(self).capacity() && old(self)@.len() > 0 {
                Some(old(self)@[0])
            } else {
                None::<Transition<T>>
            },
    {
        let mut evicted = None;
        if self.memory_buffer.len() == self.max_capacity {
            evicted = self.memory_buffer.pop_front();
        }
        self.memory_buffer.push_back(transition);
        proof {
            assert(old(self)@.len() > 0 ==> old(self)@.drop_first() == old(self)@.subrange(1, old(self)@.len() as int));
        }
        evicted
    }

    /// Draws `batch_size` transitions at random, from pairwise distinct
    /// positions of the memory. The memory must hold at least that many
    /// (and, above `u32::MAX` transitions, more than that many).
    pub fn sample(&self, batch_size: usize) -> (batch: Vec<Transition<T>>)
        requires
            batch_size <= self@.len(),
            batch_size < self@.len() || self@.len() <= u32::MAX,
        ensures
            batch@.len() == batch_size,
            drawn_without_repetition(self@, batch@),
    {
        let mut rng = thread_rng();
        let indices = sample_indices(&mut rng, self.memory_buffer.len(), batch_size);
        let batch = self.gather(&indices);
        proof {
            let idx = Seq::new(batch_size as nat, |m: int| indices@[m] as int);
            assert(idx.no_duplicates()) by {
                assert forall|a: int, b: int| 0 <= a < idx.len() && 0 <= b < idx.len() && a != b implies idx[a] != idx[b] by {
                    assert(indices@[a] != indices@[b]);
                }
            }
            assert(selects_at(self@, batch@, idx));
        }
        batch
    }

    /// The transitions at the given positions, in the order of `indices`.
    pub fn gather(&self, indices: &Vec<usize>) -> (batch: Vec<Transition<T>>)
        requires
            forall|m: int| 0 <= m < indices@.len() ==> #[trigger] indices@[m] < self@.len(),
        ensures
            batch@.len() == indices@.len(),
            forall|m: int| 0 <= m < indices@.len() ==> #[trigger] batch@[m] == self@[indices@[m] as int],
    {
        let mut batch: Vec<Transition<T>> = Vec::new();
        let mut k: usize = 0;
        while k < indices.len()
            invariant
                k <= indices@.len(),
                forall|m: int| 0 <= m < indices@.len() ==> #[trigger] indices@[m] < self@.len(),
                batch@.len() == k,
                forall|m: int| 0 <= m < k ==> #[trigger] batch@[m] == self@[indices@[m] as int],
            decreases indices@.len() - k,
        {
            let i = indices[k];
            batch.push(self.memory_buffer[i]);
            k = k + 1;
        }
        batch
    }

    /// Number of stored transitions.
    pub fn length(&self) -> (len: usize)
        ensures
            len == self@.len(),
    {
        self.memory_buffer.len()
    }

    /// The capacity the memory was made with.
    pub fn max_capacity(&self) -> (cap: usize)
        ensures
            cap == self.capacity(),
    {
        self.max_capacity
    }
}

/// A memory of positive capacity, filled from empty, holds exactly the
/// latest `cap` transitions pushed into it, oldest first.
pub proof fn lemma_filled_keeps_latest<X>(cap: nat, items: Seq<X>)
    requires
        cap > 0,
    ensures
        filled(cap, items) == latest(cap, items),
    decreases items.len(),
{
    if items.len() > 0 {
        let prefix = items.drop_last();
        lemma_filled_keeps_latest(cap, prefix);
        if prefix.len() < cap {
            assert(filled(cap, items) =~= items);
        } else {
            assert(filled(cap, items) =~= latest(cap, items));
        }
    } else {
        assert(filled(cap, items) =~= latest(cap, items));
    }
}

/// After `n` pushes into an empty memory of positive capacity, it holds
/// `min(n, cap)` transitions, the last one pushed at the end.
pub proof fn lemma_filled_len<X>(cap: nat, items: Seq<X>)
    requires
        cap > 0,
    ensures
        filled(cap, items).len() == if items.len() <= cap { items.len() } else { cap },
        items.len() > 0 ==> filled(cap, items).last() == items.last(),
{
    lemma_filled_keeps_latest(cap, items);
}

/// Pushing into a memory of positive capacity never lets it exceed that
/// capacity, and adds exactly one item while it is not full.
pub proof fn lemma_pushed_len<X>(cap: nat, contents: Seq<X>, x: X)
    requires
        cap > 0,
        contents.len() <= cap,
    ensures
        pushed(cap, contents, x).len() == if contents.len() < cap { contents.len() + 1 } else { cap },
        pushed(cap, contents, x).last() == x,
{
}

/// Batch of transitions laid out field by field.
pub struct TransitionSOA<T> {
    pub state: Vec<T>,
    pub action: Vec<T>,
    pub next_state: Vec<Option<T>>,
    pub reward: Vec<T>,
}

impl<T: Copy> TransitionSOA<T> {
    /// Splits `transitions` into one vector per field, keeping their order.
    pub fn new(transitions: Vec<Transition<T>>) -> (soa: TransitionSOA<T>)
        ensures
            soa.state@.len() == transitions@.len(),
            soa.action@.len() == transitions@.len(),
            soa.next_state@.len() == transitions@.len(),
            soa.reward@.len() == transitions@.len(),
            forall|i: int| 0 <= i < transitions@.len() ==> #[trigger] soa.state@[i] == transitions@[i].state,
            forall|i: int| 0 <= i < transitions@.len() ==> #[trigger] soa.action@[i] == transitions@[i].action,
            forall|i: int| 0 <= i < transitions@.len() ==> #[trigger] soa.next_state@[i] == transitions@[i].next_state,
            forall|i: int| 0 <= i < transitions@.len() ==> #[trigger] soa.reward@[i] == transitions@[i].reward,
    {
        let mut state: Vec<T> = Vec::new();
        let mut action: Vec<T> = Vec::new();
        let mut next_state: Vec<Option<T>> = Vec::new();
        let mut reward: Vec<T> = Vec::new();
        let mut i: usize = 0;
        while i < transitions.len()
            invariant
                i <= transitions@.len(),
                state@.len() == i,
                action@.len() == i,
                next_state@.len() == i,
                reward@.len() == i,
                forall|j: int| 0 <= j < i ==> #[trigger] state@[j] == transitions@[j].state,
                forall|j: int| 0 <= j < i ==> #[trigger] action@[j] == transitions@[j].action,
                forall|j: int| 0 <= j < i ==> #[trigger] next_state@[j] == transitions@[j].next_state,
                forall|j: int| 0 <= j < i ==> #[trigger] reward@[j] == transitions@[j].reward,
            decreases transitions@.len() - i,
        {
            let t = transitions[i];
            state.push(t.state);
            action.push(t.action);
            next_state.push(t.next_state);
            reward.push(t.reward);
            i = i + 1;
        }
        TransitionSOA { state, action, next_state, reward }
    }
}

} // verus!
