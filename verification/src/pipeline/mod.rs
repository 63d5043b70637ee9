//! The fixed sequence of validation steps and the data that flows between them.
pub mod context;
pub mod state;
pub mod steps;
