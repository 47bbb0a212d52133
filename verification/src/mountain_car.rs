//! Integer hyperparameters for the sparse-reward MountainCar environment.

use vstd::prelude::*;

verus! {

/// Number of transitions sampled from replay memory per optimization step.
pub const BATCH_SIZE: usize = 128;

/// Total training episodes (more are needed for sparse rewards).
pub const TOTAL_EPISODES: usize = 1000;

/// Replay memory capacity.
pub const MEMORY_CAPACITY: usize = 10_000;

/// Width of the two hidden layers of the Q-network.
pub const HIDDEN_LAYER_SIZE: usize = 128;

/// MountainCar observes position and velocity.
pub const OBSERVATION_SIZE: usize = 2;

/// MountainCar actions: push left, no push, push right.
pub const NUM_ACTIONS: usize = 3;

/// Step count at which an episode is cut off (MountainCar-v0 limit).
pub const MAX_STEPS_PER_EPISODE: usize = 200;

} // verus!
