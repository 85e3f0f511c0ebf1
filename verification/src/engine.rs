//! The engine's decisions, its metrics and the view it publishes.

pub mod engine;
pub mod metrics;
pub mod state;
