//! Verified core of a self-play Q-learning trainer for a three-by-three
//! grid game.
//!
//! - `game`: the board, legal moves, win detection.
//! - `train`: the encoding of a board for the network, and epsilon-greedy
//!   action selection.
//! - `episode`: one episode of self-play as a state machine, and the loop
//!   that plays an episode with a policy and records it.
//! - `replay`: transitions and the bounded first-in-first-out replay buffer.
//! - `model`: the check that a stored network has the expected topology.
//!
//! The network's arithmetic is floating point and is not part of this
//! library. Values cross that boundary as integers: feature vectors of zeros
//! and ones, rewards in tenths, and Q-values as the bit patterns of
//! single-precision numbers.

pub mod episode;
pub mod game;
pub mod model;
pub mod replay;
pub mod train;
mod rng;
