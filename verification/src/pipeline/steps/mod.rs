//! The deterministic parts of the pipeline steps.
pub mod analysis;
pub mod claims;
pub mod contradiction;
pub mod deep_reasoning;
pub mod finalize;
pub mod prior_art_cluster;
pub mod rank;
pub mod search;
pub mod tokens;
