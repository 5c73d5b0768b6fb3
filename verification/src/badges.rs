//! The skill-badge subsystem: per-category badges with fixed level
//! thresholds and a stepped experience formula, per-category experience
//! leaderboards maintained by the same stable re-sort discipline as the
//! mentor board, and revocable credentials issued against badges.

pub mod badge;
pub mod contract;
pub mod credential;
pub mod errors;
pub mod storage;
pub mod types;
