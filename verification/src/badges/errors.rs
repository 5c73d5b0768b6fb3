//! The closed error taxonomy of the badge subsystem.

use vstd::prelude::*;

verus! {

/// Every way a badge operation can be rejected. Each operation either takes
/// full effect or returns one of these with no state change at all.
#[derive(Clone, Copy, Debug, PartialEq, Eq, Structural)]
pub enum ContractError {
    NotInitialized,
    AlreadyInitialized,
    Unauthorized,
    BadgeNotFound,
    CredentialNotFound,
    CredentialRevoked,
    InvalidPuzzleCount,
    PlayerNotFound,
    MaxLevelReached,
    InvalidCategory,
}

} // verus!
