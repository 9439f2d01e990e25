//! One node of a distributed cellular automaton: the per-node tick engine.

pub mod address;
pub mod config;
pub mod poller;
pub mod publish;
pub mod rule;
pub mod state;
pub mod tick;
pub mod topology;
