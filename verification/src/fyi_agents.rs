//! Spectators that are kept informed of the game.

pub mod noop_fyi_agent;

pub use noop_fyi_agent::NoopFYIAgent;
