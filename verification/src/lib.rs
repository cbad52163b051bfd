//! Batch orchestration for an HTML-to-Markdown command-line converter:
//! pure path algebra (common ancestor, relativization), input
//! resolution, output planning under mirroring and flatten policies,
//! configuration merging from flags and a TOML file, and the engine
//! boundary, with the conversion engine consumed as an opaque
//! collaborator.
pub mod config;
pub mod engine;
pub mod names;
pub mod paths;
pub mod plan;
pub mod resolve;
