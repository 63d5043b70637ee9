//! Verified core of the patent search and innovation-validation service.
pub mod ai;
pub mod chat;
pub mod db;
pub mod experiment;
pub mod failover;
pub mod json;
pub mod orchestrator;
pub mod patent;
pub mod pipeline;
pub mod routes;
pub mod text;
