//! A verified core for flattening a source tree into a single tagged
//! artifact: a multi-grammar source compression engine with a strict
//! fallback policy, a deterministic priority scorer, and a greedy,
//! budget-bounded allocator.
pub mod compress;
pub mod config;
pub mod engine;
pub mod filters;
pub mod output;
pub mod parse;
pub mod priority;
pub mod text;
pub mod tokens;
pub mod tree;
pub mod walker;

pub use config::Config;
