//! Experiment validation: the specification of a generated script, the
//! cleaning of the generated code, and the reading of a run's output.
pub mod generator;
pub mod sandbox;
pub mod types;
