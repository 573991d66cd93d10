//! Verified core of a reinforcement-learning agent that plays emulated games:
//! action encoding, frame stacking, the environment state machine, the replay
//! buffer and the exploration schedule.

mod bytes;
pub mod controller;
pub mod env;
pub mod frame_stack;
pub mod gamestate;
pub mod network_config;
pub mod platform;
pub mod policy;
pub mod preprocess;
pub mod q_learning;
mod random;
pub mod replay_buffer;
pub mod utils;
