//! Data model of the mentorship platform.
//!
//! Participants are identified by plain `u64` addresses: the host confirms
//! who the caller is before an operation runs, so the core only ever
//! compares identities.

use vstd::prelude::*;

verus! {

/// Skill areas a mentor can offer and a session can be about.
#[derive(Clone, Copy, Debug, PartialEq, Eq, Structural)]
pub enum SkillCategory {
    Logic,
    Math,
    Pattern,
    Cryptography,
    Spatial,
    WordPuzzle,
    Strategy,
    MemoryChallenge,
}

/// The session state machine. `Completed`, `Resolved` and `Cancelled` are
/// terminal; escrow is held exactly while the status is one of the other
/// four.
#[derive(Clone, Copy, Debug, PartialEq, Eq, Structural)]
pub enum SessionStatus {
    Pending,
    Active,
    PendingVerification,
    Completed,
    Disputed,
    Resolved,
    Cancelled,
}

impl SessionStatus {
    /// True while the session's reward is custodied by the platform.
    pub open spec fn holds_escrow(self) -> bool {
        self == SessionStatus::Pending || self == SessionStatus::Active
            || self == SessionStatus::PendingVerification || self == SessionStatus::Disputed
    }
}

/// How an administrator settles a disputed session.
#[derive(Clone, Copy, Debug, PartialEq, Eq, Structural)]
pub enum DisputeOutcome {
    FavorMentor,
    FavorMentee,
    Split,
}

/// A mentor's registry record. The reputation score is always recomputed
/// from the rating and completion history, never trusted on its own.
#[derive(Clone, Debug)]
pub struct MentorProfile {
    pub address: u64,
    pub skills: Vec<SkillCategory>,
    pub hourly_rate: i128,
    pub total_sessions: u32,
    pub completed_sessions: u32,
    pub total_rating: u32,
    pub rating_count: u32,
    pub reputation_score: u32,
    pub total_earned: i128,
    pub registered_at: u64,
    pub is_active: bool,
}

/// `a` carries the same profile data as `b`; the skill list is compared by
/// contents. This is how a returned snapshot relates to the stored record.
pub open spec fn mentor_profile_like(a: MentorProfile, b: MentorProfile) -> bool {
    &&& a.address == b.address
    &&& a.skills@ == b.skills@
    &&& a.hourly_rate == b.hourly_rate
    &&& a.total_sessions == b.total_sessions
    &&& a.completed_sessions == b.completed_sessions
    &&& a.total_rating == b.total_rating
    &&& a.rating_count == b.rating_count
    &&& a.reputation_score == b.reputation_score
    &&& a.total_earned == b.total_earned
    &&& a.registered_at == b.registered_at
    &&& a.is_active == b.is_active
}

/// Field-for-field copy of a skill list.
fn clone_skills(v: &Vec<SkillCategory>) -> (r: Vec<SkillCategory>)
    ensures
        r@ == v@,
{
    let mut r: Vec<SkillCategory> = Vec::new();
    let mut k: usize = 0;
    while k < v.len()
        invariant
            k <= v@.len(),
            r@ == v@.subrange(0, k as int),
        decreases v@.len() - k,
    {
        r.push(v[k]);
        proof {
            assert(r@ =~= v@.subrange(0, k + 1 as int));
        }
        k = k + 1;
    }
    proof {
        assert(r@ =~= v@);
    }
    r
}

impl MentorProfile {
    /// Bookkeeping consistency: every rating is between 1 and 5 and is
    /// recorded together with a completion, every completion belongs to an
    /// accepted session, and earnings never go negative.
    pub open spec fn wf(self) -> bool {
        &&& self.hourly_rate > 0
        &&& self.total_rating <= 5 * self.rating_count
        &&& self.rating_count <= self.completed_sessions
        &&& self.completed_sessions <= self.total_sessions
        &&& self.total_earned >= 0
    }

    /// A copy to hand to the caller while the stored record stays in place.
    pub fn snapshot(&self) -> (r: MentorProfile)
        ensures
            mentor_profile_like(r, *self),
    {
        MentorProfile {
            address: self.address,
            skills: clone_skills(&self.skills),
            hourly_rate: self.hourly_rate,
            total_sessions: self.total_sessions,
            completed_sessions: self.completed_sessions,
            total_rating: self.total_rating,
            rating_count: self.rating_count,
            reputation_score: self.reputation_score,
            total_earned: self.total_earned,
            registered_at: self.registered_at,
            is_active: self.is_active,
        }
    }
}

/// A mentee's registry record.
#[derive(Clone, Copy, Debug)]
pub struct MenteeProfile {
    pub address: u64,
    pub total_sessions: u32,
    pub completed_sessions: u32,
    pub total_spent: i128,
    pub registered_at: u64,
    pub is_active: bool,
}

impl MenteeProfile {
    pub open spec fn wf(self) -> bool {
        &&& self.completed_sessions <= self.total_sessions
        &&& self.total_spent >= 0
    }
}

/// One mentorship engagement. The reward and the platform fee are locked in
/// at creation; the status walks the state machine exactly once.
#[derive(Clone, Debug)]
pub struct MentorshipSession {
    pub session_id: u64,
    pub mentor: u64,
    pub mentee: u64,
    pub category: SkillCategory,
    pub goal: String,
    pub reward_amount: i128,
    pub platform_fee: i128,
    pub status: SessionStatus,
    pub mentor_rating: u32,
    pub mentee_feedback: String,
    pub outcome_notes: String,
    pub dispute_reason: String,
    pub dispute_outcome: Option<DisputeOutcome>,
    pub created_at: u64,
    pub accepted_at: u64,
    pub completed_at: u64,
}

/// `a` carries the same session data as `b`; text fields are compared by
/// contents. This is how a returned snapshot relates to the stored record.
pub open spec fn session_like(a: MentorshipSession, b: MentorshipSession) -> bool {
    &&& a.session_id == b.session_id
    &&& a.mentor == b.mentor
    &&& a.mentee == b.mentee
    &&& a.category == b.category
    &&& a.goal@ == b.goal@
    &&& a.reward_amount == b.reward_amount
    &&& a.platform_fee == b.platform_fee
    &&& a.status == b.status
    &&& a.mentor_rating == b.mentor_rating
    &&& a.mentee_feedback@ == b.mentee_feedback@
    &&& a.outcome_notes@ == b.outcome_notes@
    &&& a.dispute_reason@ == b.dispute_reason@
    &&& a.dispute_outcome == b.dispute_outcome
    &&& a.created_at == b.created_at
    &&& a.accepted_at == b.accepted_at
    &&& a.completed_at == b.completed_at
}

impl MentorshipSession {
    /// Lifetime invariant of every session record.
    pub open spec fn wf(self) -> bool {
        &&& self.session_id >= 1
        &&& self.mentor != self.mentee
        &&& self.reward_amount > 0
        &&& 0 <= self.platform_fee < self.reward_amount
        &&& self.status == SessionStatus::Completed ==> 1 <= self.mentor_rating <= 5
        &&& self.status != SessionStatus::Completed ==> self.mentor_rating == 0
        &&& self.dispute_outcome.is_some() <==> self.status == SessionStatus::Resolved
    }

    /// A copy to hand to the caller while the stored record stays in place.
    pub fn snapshot(&self) -> (r: MentorshipSession)
        ensures
            session_like(r, *self),
    {
        MentorshipSession {
            session_id: self.session_id,
            mentor: self.mentor,
            mentee: self.mentee,
            category: self.category,
            goal: self.goal.clone(),
            reward_amount: self.reward_amount,
            platform_fee: self.platform_fee,
            status: self.status,
            mentor_rating: self.mentor_rating,
            mentee_feedback: self.mentee_feedback.clone(),
            outcome_notes: self.outcome_notes.clone(),
            dispute_reason: self.dispute_reason.clone(),
            dispute_outcome: self.dispute_outcome,
            created_at: self.created_at,
            accepted_at: self.accepted_at,
            completed_at: self.completed_at,
        }
    }
}

/// A row of the persisted mentor leaderboard; `rank` is the 1-based
/// position assigned by the last full sort pass.
#[derive(Clone, Copy, Debug)]
pub struct MentorLeaderboardEntry {
    pub mentor: u64,
    pub reputation_score: u32,
    pub completed_sessions: u32,
    pub average_rating: u32,
    pub total_earned: i128,
    pub rank: u32,
}

/// Aggregate platform counters, derived from session engine events.
#[derive(Clone, Copy, Debug)]
pub struct PlatformStats {
    pub total_mentors: u32,
    pub total_mentees: u32,
    pub total_sessions: u32,
    pub completed_sessions: u32,
    pub disputed_sessions: u32,
    pub total_rewards_distributed: i128,
    pub total_fees_collected: i128,
}

impl PlatformStats {
    pub open spec fn wf(self) -> bool {
        &&& self.total_rewards_distributed >= 0
        &&& self.total_fees_collected >= 0
    }
}

} // verus!
