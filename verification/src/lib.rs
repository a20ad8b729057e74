//! Dependency intelligence engine for Python requirement manifests.
//!
//! The crate parses manifest lines into normalized package records,
//! classifies version deltas against resolved index versions, enriches
//! records with security, popularity and changelog data handed in by a
//! caller, detects upgrade conflicts between declared dependencies, and
//! scores the aggregate risk of an upgrade batch.

pub mod app;
pub mod changelog;
pub mod jsonval;
pub mod models;
pub mod parser;
pub mod popularity;
pub mod pypi;
pub mod resolver;
pub mod security;
pub mod simulator;
pub mod styles;
pub mod text;
