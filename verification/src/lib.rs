//! Escrow-backed peer mentorship marketplace, modelled and verified.
//!
//! The crate has two independent subsystems:
//!
//! * [`mentorship`] — the session lifecycle and escrow state machine, the
//!   participant registry, platform statistics, and the reputation-ranked
//!   mentor leaderboard.
//! * [`badges`] — the skill-badge leveling subsystem with its own
//!   per-category experience leaderboards and credentials.
//!
//! Both subsystems are pure state machines: the host environment
//! (authentication, durable storage, the fungible reward asset and the
//! clock) is modelled as explicit data — a [`mentorship::token::TokenLedger`]
//! for balances and `now` parameters for timestamps — so that every
//! transition is a verified function from state and inputs to state and
//! result.

pub mod badges;
pub mod mentorship;
