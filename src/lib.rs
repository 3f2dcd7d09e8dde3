//! Unique file copy: content-addressed deduplication of a source tree into a
//! destination tree, with a persistent fingerprint index.

pub mod text;
pub mod fingerprint;
pub mod paths;
pub mod filter;
pub mod index;
pub mod engine;
pub mod stats;
pub mod laws;
