//! A fixed-timestep simulation loop: a deterministic game/time model advanced
//! in discrete ticks, fed by a FIFO command inbox and observed through a
//! published read-only snapshot.
//!
//! The pure transition logic lives here and is verified; the real-time
//! plumbing (worker thread, channel, clock) is a thin unverified harness
//! around it.

pub mod engine;
pub mod game;
