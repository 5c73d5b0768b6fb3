//! The peer-mentorship core: session lifecycle, escrow custody, participant
//! registry, platform statistics and the reputation leaderboard.

pub mod contract;
pub mod errors;
pub mod laws;
pub mod mentor;
pub mod session;
pub mod mentee;
pub mod stats;
pub mod storage;
pub mod token;
pub mod types;
