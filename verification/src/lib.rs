//! Verified core of a DQN CartPole trainer: replay memories, batch
//! bookkeeping, the episode loop's decisions, dashboard statistics and the
//! decoding of binary state files.

pub mod config;
pub mod mountain_car;
pub mod rng;
pub mod replay;
pub mod buffer;
pub mod batch;
pub mod state_file;
pub mod episode;
pub mod dashboard;
pub mod timing;
