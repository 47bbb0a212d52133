//! Integer hyperparameters of the CartPole trainer.

use vstd::prelude::*;

verus! {

/// Number of transitions sampled from replay memory per optimization step.
pub const BATCH_SIZE: usize = 128;

/// Total training episodes.
pub const TOTAL_EPISODES: usize = 600;

/// Replay memory capacity.
pub const MEMORY_CAPACITY: usize = 10_000;

/// Width of the two hidden layers of the Q-network.
pub const HIDDEN_LAYER_SIZE: usize = 128;

/// Number of values in one CartPole observation.
pub const OBSERVATION_SIZE: usize = 4;

/// Step count at which an episode is cut off (CartPole-v1 limit).
pub const MAX_STEPS_PER_EPISODE: usize = 500;

} // verus!
