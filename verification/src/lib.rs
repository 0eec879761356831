//! Bulk, structure-preserving transformation of a directory tree: the
//! verified core of the walk-and-dispatch engine.
//!
//! The filesystem walk, the worker threads and the transformation itself are
//! the caller's business. This library decides: which entries are eligible,
//! where each result goes, what every visit counts as, and how a run ends.

pub mod classify;
pub mod config;
pub mod controller;
pub mod laws;
pub mod mapper;
pub mod outcome;
pub mod path;
pub mod report;
pub mod walker;
