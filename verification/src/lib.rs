//! Verified core of a directory-statistics tool: configuration, extension
//! filter policy, aggregate counters with an associative merge, traversal
//! over a captured directory tree, and size formatting.

pub mod agg;
pub mod casefold;
pub mod config;
pub mod filter;
pub mod laws;
pub mod render;
pub mod walk;
