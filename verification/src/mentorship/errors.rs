//! The closed error taxonomy of the mentorship platform.

use vstd::prelude::*;

verus! {

/// Every way a platform operation can be rejected. Each operation either
/// takes full effect or returns one of these with no state change at all.
#[derive(Clone, Copy, Debug, PartialEq, Eq, Structural)]
pub enum ContractError {
    NotInitialized,
    AlreadyInitialized,
    Unauthorized,
    MentorNotFound,
    MenteeNotFound,
    SessionNotFound,
    AlreadyRegistered,
    MentorNotActive,
    MenteeNotActive,
    InvalidStatus,
    InvalidRating,
    InvalidRewardAmount,
    InsufficientEscrow,
    SkillNotOffered,
    SelfMentorship,
    SessionAlreadyDisputed,
    DisputeNotResolved,
    InvalidFeeRate,
    RewardAlreadyClaimed,
    InvalidGoal,
}

} // verus!
