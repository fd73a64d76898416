//! Security-oriented mining of a repository's commit history: aggregation of
//! per-file and per-author histories, a catalog of vulnerability indicators
//! matched against commit messages, and bounded risk scores.

pub mod analysis;
pub mod config;
pub mod engine;
pub mod extract;
pub mod history;
pub mod output;
pub mod patterns;
pub mod ranking;
pub mod score;
pub mod text;
