//! Streaming random sampling of text lines: a fixed-size reservoir sampler,
//! an independent-probability sampler, header passthrough, and the decisions
//! of the output stage.

pub mod bernoulli;
pub mod config;
pub mod output;
pub mod random;
pub mod reservoir;
pub mod sampler;
