//! Replay buffer of the first, stand-alone agent: a FIFO that keeps the last
//! 50 000 transitions and hands out random batches of them.

use crate::replay::pushed;
use crate::rng::{choose_multiple_copied, drawn_without_repetition, thread_rng};
use std::collections::VecDeque;
use vstd::prelude::*;

verus! {

/// Number of transitions the buffer keeps.
pub const REPLAY_BUFFER_CAPACITY: usize = 50_000;

/// FIFO of the last `REPLAY_BUFFER_CAPACITY` transitions. `T` is the
/// transition type of the agent.
pub struct ReplayBuffer<T> {
    transitions: VecDeque<T>,
}

impl<T> View for ReplayBuffer<T> {
    type V = Seq<T>;

    /// The stored transitions, oldest first.
    closed spec fn view(&self) -> Seq<T> {
        self.transitions@
    }
}

impl<T: Copy> ReplayBuffer<T> {
    /// The buffer never holds more than its capacity.
    pub closed spec fn well_formed(&self) -> bool {
        self.transitions@.len() <= REPLAY_BUFFER_CAPACITY
    }

    pub fn new() -> (buffer: ReplayBuffer<T>)
        ensures
            buffer@ == Seq::<T>::empty(),
            buffer.well_formed(),
    {
        ReplayBuffer { transitions: VecDeque::new() }
    }

    /// Appends a transition, dropping the oldest one when the buffer is full.
    pub fn add_transition(&mut self, new_transtion: T)
        requires
            old(self).well_formed(),
        ensures
            final(self).well_formed(),
            final(self)@ == pushed(REPLAY_BUFFER_CAPACITY as nat, old(self)@, new_transtion),
    {
        if self.transitions.len() == REPLAY_BUFFER_CAPACITY {
            let _ = self.transitions.pop_front();
        }
        self.transitions.push_back(new_transtion);
        proof {
            assert(old(self)@.len() > 0 ==> old(self)@.drop_first() == old(self)@.subrange(1, old(self)@.len() as int));
        }
    }

    /// Draws `batch_size` transitions at random from pairwise distinct
    /// positions, or all of them in random order when the buffer holds
    /// fewer. The stored transitions are left as they were.
    pub fn sample(&mut self, batch_size: usize) -> (batch: Vec<T>)
        requires
            batch_size < old(self)@.len() || old(self)@.len() <= u32::MAX,
        ensures
            final(self)@ == old(self)@,
            final(self).well_formed() == old(self).well_formed(),
            batch@.len() == if batch_size <= old(self)@.len() { batch_size as nat } else { old(self)@.len() },
            drawn_without_repetition(old(self)@, batch@),
    {
        let mut rng = thread_rng();
        choose_multiple_copied(&mut self.transitions, &mut rng, batch_size)
    }

    /// Number of stored transitions.
    pub fn len(&self) -> (len: usize)
        ensures
            len == self@.len(),
    {
        self.transitions.len()
    }
}

} // verus!
