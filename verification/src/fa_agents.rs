//! Players' decision makers that live in this process.

pub mod noop_fa_agent;
pub mod random_fa_agent;

pub use noop_fa_agent::NoopFAAgent;
pub use random_fa_agent::RandomFAAgent;
