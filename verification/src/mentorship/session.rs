//! The escrow-backed session state machine.
//!
//! A session is created `Pending` with its reward custodied by the platform,
//! and ends in exactly one of `Completed`, `Resolved` or `Cancelled`, each
//! of which disburses the full escrowed reward. The escrow record for a
//! session exists exactly while its status still holds funds, and the
//! custody account always covers the sum of all outstanding escrows.

use vstd::pervasive::VecAdditionalExecFns;
use vstd::prelude::*;

use crate::mentorship::errors::ContractError;
use crate::mentorship::mentee::{has_mentee, mentee_at, mentee_idx, MenteeManager};
use crate::mentorship::mentor::{has_mentor, mentor_at, MentorManager};
use crate::mentorship::stats::StatsManager;
use crate::mentorship::storage::Storage;
use crate::mentorship::token::TokenLedger;
use crate::mentorship::types::{
    session_like, DisputeOutcome, MenteeProfile, MentorshipSession, PlatformStats, SessionStatus,
    SkillCategory,
};

verus! {

/// The value an escrow record holds: its amount, or 0 when absent.
pub open spec fn escrow_amt(e: Option<i128>) -> int {
    match e {
        Some(a) => a as int,
        None => 0,
    }
}

/// Sum of all outstanding escrow amounts.
pub open spec fn escrow_total(es: Seq<Option<i128>>) -> int
    decreases es.len(),
{
    if es.len() == 0 {
        0
    } else {
        escrow_total(es.drop_last()) + escrow_amt(es.last())
    }
}

pub open spec fn escrows_positive(es: Seq<Option<i128>>) -> bool {
    forall|i: int| 0 <= i < es.len() ==> escrow_amt(#[trigger] es[i]) >= 0
}

/// With non-negative records, any single escrow is at most the total.
pub proof fn lemma_escrow_le_total(es: Seq<Option<i128>>, i: int)
    requires
        escrows_positive(es),
        0 <= i < es.len(),
    ensures
        escrow_total(es) >= escrow_amt(es[i]) >= 0,
        escrow_total(es) >= 0,
    decreases es.len(),
{
    if es.len() > 0 {
        assert(escrows_positive(es.drop_last()));
        if i == es.len() - 1 {
            lemma_escrow_nonneg(es.drop_last());
        } else {
            lemma_escrow_le_total(es.drop_last(), i);
            assert(escrow_amt(es.last()) >= 0);
        }
    }
}

proof fn lemma_escrow_nonneg(es: Seq<Option<i128>>)
    requires
        escrows_positive(es),
    ensures
        escrow_total(es) >= 0,
    decreases es.len(),
{
    if es.len() > 0 {
        assert(escrows_positive(es.drop_last()));
        lemma_escrow_nonneg(es.drop_last());
        assert(escrow_amt(es.last()) >= 0);
    }
}

/// Replacing record `i` moves the total by the record's delta.
proof fn lemma_escrow_update(es: Seq<Option<i128>>, i: int, v: Option<i128>)
    requires
        0 <= i < es.len(),
    ensures
        escrow_total(es.update(i, v)) == escrow_total(es) - escrow_amt(es[i]) + escrow_amt(v),
    decreases es.len(),
{
    let t = es.update(i, v);
    if i == es.len() - 1 {
        assert(t.drop_last() =~= es.drop_last());
    } else {
        lemma_escrow_update(es.drop_last(), i, v);
        assert(t.drop_last() =~= es.drop_last().update(i, v));
        assert(t.last() == es.last());
    }
}

/// Appending a record adds its amount to the total.
proof fn lemma_escrow_push(es: Seq<Option<i128>>, v: Option<i128>)
    ensures
        escrow_total(es.push(v)) == escrow_total(es) + escrow_amt(v),
{
    assert(es.push(v).drop_last() =~= es);
}

/// Session ids of `a`'s sessions as mentor, in creation order.
pub open spec fn mentor_session_ids(s: Seq<MentorshipSession>, a: u64) -> Seq<u64>
    decreases s.len(),
{
    if s.len() == 0 {
        Seq::empty()
    } else {
        let rest = mentor_session_ids(s.drop_last(), a);
        if s.last().mentor == a {
            rest.push(s.last().session_id)
        } else {
            rest
        }
    }
}

/// Session ids of `a`'s sessions as mentee, in creation order.
pub open spec fn mentee_session_ids(s: Seq<MentorshipSession>, a: u64) -> Seq<u64>
    decreases s.len(),
{
    if s.len() == 0 {
        Seq::empty()
    } else {
        let rest = mentee_session_ids(s.drop_last(), a);
        if s.last().mentee == a {
            rest.push(s.last().session_id)
        } else {
            rest
        }
    }
}

/// A freshly created session record.
pub open spec fn fresh_session(
    s: MentorshipSession,
    mentor: u64,
    mentee: u64,
    category: SkillCategory,
    goal: Seq<char>,
    reward_amount: i128,
    platform_fee: int,
    session_id: int,
    now: u64,
) -> bool {
    &&& s.session_id == session_id
    &&& s.mentor == mentor
    &&& s.mentee == mentee
    &&& s.category == category
    &&& s.goal@ == goal
    &&& s.reward_amount == reward_amount
    &&& s.platform_fee == platform_fee
    &&& s.status == SessionStatus::Pending
    &&& s.mentor_rating == 0
    &&& s.mentee_feedback@.len() == 0
    &&& s.outcome_notes@.len() == 0
    &&& s.dispute_reason@.len() == 0
    &&& s.dispute_outcome is None
    &&& s.created_at == now
    &&& s.accepted_at == 0
    &&& s.completed_at == 0
}

/// Owns every session record and the escrow ledger entries, keyed by
/// session id: the session with id `i + 1` sits at index `i`.
pub struct SessionManager {
    pub sessions: Vec<MentorshipSession>,
    pub escrows: Vec<Option<i128>>,
}

impl SessionManager {
    /// The index of session `session_id`.
    pub open spec fn idx(session_id: u64) -> int {
        session_id - 1
    }

    /// `session_id` names a stored session.
    pub open spec fn has_session(self, session_id: u64) -> bool {
        1 <= session_id <= self.sessions@.len()
    }

    /// The stored session with id `session_id`.
    pub open spec fn session_at(self, session_id: u64) -> MentorshipSession {
        self.sessions@[Self::idx(session_id)]
    }

    /// Invariants: ids are dense and strictly increasing, every record keeps
    /// the session invariant, and an escrow record of exactly the reward
    /// exists if and only if the status still holds funds.
    pub open spec fn wf(self) -> bool {
        &&& self.escrows@.len() == self.sessions@.len()
        &&& forall|i: int|
            0 <= i < self.sessions@.len() ==> (#[trigger] self.sessions@[i]).wf()
        &&& forall|i: int|
            0 <= i < self.sessions@.len() ==> (#[trigger] self.sessions@[i]).session_id == i + 1
        &&& forall|i: int|
            0 <= i < self.sessions@.len() ==> ((#[trigger] self.escrows@[i]) is Some
                <==> self.sessions@[i].status.holds_escrow())
        &&& forall|i: int|
            0 <= i < self.sessions@.len() ==> ((#[trigger] self.escrows@[i]) is Some
                ==> self.escrows@[i]->0 == self.sessions@[i].reward_amount)
    }

    /// All outstanding escrow is non-negative under the invariant.
    pub proof fn lemma_wf_escrows(self)
        requires
            self.wf(),
        ensures
            escrows_positive(self.escrows@),
            escrow_total(self.escrows@) >= 0,
    {
        assert forall|i: int| 0 <= i < self.escrows@.len() implies escrow_amt(
            #[trigger] self.escrows@[i],
        ) >= 0 by {
            assert(self.sessions@[i].wf());
        }
        lemma_escrow_nonneg(self.escrows@);
    }

    pub fn new() -> (r: SessionManager)
        ensures
            r.wf(),
            r.sessions@.len() == 0,
            escrow_total(r.escrows@) == 0,
    {
        SessionManager { sessions: Vec::new(), escrows: Vec::new() }
    }

    /// A copy of the stored session, if the id names one.
    pub fn get(&self, session_id: u64) -> (r: Option<MentorshipSession>)
        requires
            self.wf(),
        ensures
            match r {
                Some(s) => self.has_session(session_id) && session_like(
                    s,
                    self.session_at(session_id),
                ),
                None => !self.has_session(session_id),
            },
    {
        if session_id >= 1 && session_id <= self.sessions.len() as u64 {
            let i = (session_id - 1) as usize;
            Some(self.sessions[i].snapshot())
        } else {
            None
        }
    }

    /// Ids of `mentor`'s sessions, oldest first.
    pub fn get_mentor_sessions(&self, mentor: u64) -> (r: Vec<u64>)
        ensures
            r@ == mentor_session_ids(self.sessions@, mentor),
    {
        let mut r: Vec<u64> = Vec::new();
        let mut k: usize = 0;
        while k < self.sessions.len()
            invariant
                k <= self.sessions@.len(),
                r@ == mentor_session_ids(self.sessions@.subrange(0, k as int), mentor),
            decreases self.sessions@.len() - k,
        {
            proof {
                assert(self.sessions@.subrange(0, k + 1 as int).drop_last() =~= self.sessions@
                    .subrange(0, k as int));
                assert(self.sessions@.subrange(0, k + 1 as int).last() == self.sessions@[k as int]);
            }
            if self.sessions[k].mentor == mentor {
                r.push(self.sessions[k].session_id);
            }
            k = k + 1;
        }
        proof {
            assert(self.sessions@.subrange(0, self.sessions@.len() as int) =~= self.sessions@);
        }
        r
    }

    /// Ids of `mentee`'s sessions, oldest first.
    pub fn get_mentee_sessions(&self, mentee: u64) -> (r: Vec<u64>)
        ensures
            r@ == mentee_session_ids(self.sessions@, mentee),
    {
        let mut r: Vec<u64> = Vec::new();
        let mut k: usize = 0;
        while k < self.sessions.len()
            invariant
                k <= self.sessions@.len(),
                r@ == mentee_session_ids(self.sessions@.subrange(0, k as int), mentee),
            decreases self.sessions@.len() - k,
        {
            proof {
                assert(self.sessions@.subrange(0, k + 1 as int).drop_last() =~= self.sessions@
                    .subrange(0, k as int));
                assert(self.sessions@.subrange(0, k + 1 as int).last() == self.sessions@[k as int]);
            }
            if self.sessions[k].mentee == mentee {
                r.push(self.sessions[k].session_id);
            }
            k = k + 1;
        }
        proof {
            assert(self.sessions@.subrange(0, self.sessions@.len() as int) =~= self.sessions@);
        }
        r
    }
}

/// The first rule a creation request breaks, if any. The checks run in the
/// order the engine applies them.
pub open spec fn create_err(
    storage: Storage,
    token: TokenLedger,
    mentors: MentorManager,
    mentees: MenteeManager,
    mentee: u64,
    mentor: u64,
    category: SkillCategory,
    goal: Seq<char>,
    reward_amount: i128,
) -> Option<ContractError> {
    if mentee == mentor {
        Some(ContractError::SelfMentorship)
    } else if reward_amount <= 0 {
        Some(ContractError::InvalidRewardAmount)
    } else if goal.len() == 0 {
        Some(ContractError::InvalidGoal)
    } else if !has_mentee(mentees.profiles@, mentee) {
        Some(ContractError::MenteeNotFound)
    } else if !mentee_at(mentees.profiles@, mentee).is_active {
        Some(ContractError::MenteeNotActive)
    } else if !has_mentor(mentors.profiles@, mentor) {
        Some(ContractError::MentorNotFound)
    } else if !mentor_at(mentors.profiles@, mentor).is_active {
        Some(ContractError::MentorNotActive)
    } else if !mentor_at(mentors.profiles@, mentor).skills@.contains(category) {
        Some(ContractError::SkillNotOffered)
    } else if storage.reward_token is None {
        Some(ContractError::NotInitialized)
    } else if token.spec_balance(mentee) < reward_amount {
        Some(ContractError::InsufficientEscrow)
    } else {
        None
    }
}

/// The platform fee locked into a session: `floor(reward * bps / 10000)`.
pub open spec fn fee_of(reward_amount: i128, fee_bps: u32) -> int {
    reward_amount * fee_bps / 10000
}

impl SessionManager {
    /// Creates a session: validates the request, custodies the reward from
    /// the mentee, stores the `Pending` record under the next id and counts
    /// it for the mentee and the platform. On any rejection nothing changes.
    pub fn create(
        &mut self,
        storage: &mut Storage,
        token: &mut TokenLedger,
        mentors: &MentorManager,
        mentees: &mut MenteeManager,
        stats: &mut StatsManager,
        custody: u64,
        mentee: u64,
        mentor: u64,
        category: SkillCategory,
        goal: String,
        reward_amount: i128,
        now: u64,
    ) -> (r: Result<MentorshipSession, ContractError>)
        requires
            old(self).wf(),
            old(storage).wf(),
            old(token).wf(),
            mentors.wf(),
            old(mentees).wf(),
            old(stats).wf(),
            old(storage).session_counter == old(self).sessions@.len(),
            old(storage).session_counter < u64::MAX,
            reward_amount <= i128::MAX / 10000,
            has_mentee(old(mentees).profiles@, mentee) ==> mentee_at(
                old(mentees).profiles@,
                mentee,
            ).total_sessions < u32::MAX,
            old(stats).stats.total_sessions < u32::MAX,
        ensures
            final(self).wf(),
            final(storage).wf(),
            final(token).wf(),
            final(mentees).wf(),
            final(stats).wf(),
            ({
                let err = create_err(
                    *old(storage),
                    *old(token),
                    *mentors,
                    *old(mentees),
                    mentee,
                    mentor,
                    category,
                    goal@,
                    reward_amount,
                );
                match r {
                    Err(e) => err == Some(e) && *final(self) == *old(self) && *final(storage)
                        == *old(storage) && *final(token) == *old(token) && *final(mentees) == *old(mentees) && *final(stats) == *old(stats),
                    Ok(s) => {
                        let fee = fee_of(reward_amount, old(storage).spec_fee_bps());
                        let id = old(storage).session_counter + 1;
                        &&& err is None
                        &&& final(self).sessions@.len() == old(self).sessions@.len() + 1
                        &&& final(self).sessions@ == old(self).sessions@.push(
                            final(self).sessions@.last(),
                        )
                        &&& fresh_session(
                            final(self).sessions@.last(),
                            mentor,
                            mentee,
                            category,
                            goal@,
                            reward_amount,
                            fee,
                            id as int,
                            now,
                        )
                        &&& session_like(s, final(self).sessions@.last())
                        &&& final(self).escrows@ == old(self).escrows@.push(Some(reward_amount))
                        &&& escrow_total(final(self).escrows@) == escrow_total(old(self).escrows@)
                            + reward_amount
                        &&& *final(storage) == (Storage {
                            session_counter: (old(storage).session_counter + 1) as u64,
                            ..*old(storage)
                        })
                        &&& final(token).total() == old(token).total()
                        &&& forall|a: u64|
                            final(token).spec_balance(a) == old(token).spec_balance(a) + (
                            if a == custody {
                                reward_amount as int
                            } else {
                                0
                            }) - (
                            if a == mentee {
                                reward_amount as int
                            } else {
                                0
                            })
                        &&& final(mentees).profiles@ == old(mentees).profiles@.update(
                            mentee_idx(old(mentees).profiles@, mentee),
                            MenteeProfile {
                                total_sessions: (mentee_at(
                                    old(mentees).profiles@,
                                    mentee,
                                ).total_sessions + 1) as u32,
                                ..mentee_at(old(mentees).profiles@, mentee)
                            },
                        )
                        &&& final(stats).stats == (PlatformStats {
                            total_sessions: (old(stats).stats.total_sessions + 1) as u32,
                            ..old(stats).stats
                        })
                    },
                }
            }),
    {
        if mentee == mentor {
            return Err(ContractError::SelfMentorship);
        }
        if reward_amount <= 0 {
            return Err(ContractError::InvalidRewardAmount);
        }
        if goal.as_str().is_empty() {
            return Err(ContractError::InvalidGoal);
        }
        if let Err(e) = mentees.require_active(mentee) {
            return Err(e);
        }
        let mentor_profile = match mentors.require_active(mentor) {
            Ok(p) => p,
            Err(e) => {
                return Err(e);
            },
        };
        if !skills_contain(&mentor_profile.skills, category) {
            proof {
                assert(mentor_profile.skills@ == mentor_at(mentors.profiles@, mentor).skills@);
            }
            return Err(ContractError::SkillNotOffered);
        }
        if storage.get_reward_token().is_err() {
            return Err(ContractError::NotInitialized);
        }
        let fee_bps = storage.get_platform_fee_bps();
        proof {
            assert(reward_amount * fee_bps <= i128::MAX) by (nonlinear_arith)
                requires
                    0 < reward_amount <= i128::MAX / 10000,
                    fee_bps <= 10000,
            ;
            assert(0 <= reward_amount * fee_bps / 10000 < reward_amount) by (nonlinear_arith)
                requires
                    reward_amount > 0,
                    0 <= fee_bps <= 3000,
            ;
        }
        let platform_fee = (reward_amount * (fee_bps as i128)) / 10000;
        // Custody the reward before anything is persisted: if the mentee
        // cannot fund it, nothing at all changes.
        if let Err(_) = token.transfer(mentee, custody, reward_amount) {
            return Err(ContractError::InsufficientEscrow);
        }
        let session_id = storage.next_session_id();
        let session = MentorshipSession {
            session_id,
            mentor,
            mentee,
            category,
            goal,
            reward_amount,
            platform_fee,
            status: SessionStatus::Pending,
            mentor_rating: 0,
            mentee_feedback: String::new(),
            outcome_notes: String::new(),
            dispute_reason: String::new(),
            dispute_outcome: None,
            created_at: now,
            accepted_at: 0,
            completed_at: 0,
        };
        let snap = session.snapshot();
        proof {
            lemma_escrow_push(self.escrows@, Some(reward_amount));
        }
        self.sessions.push(session);
        self.escrows.push(Some(reward_amount));
        match mentees.record_session_created(mentee) {
            Ok(()) => {},
            Err(_) => {
                proof {
                    assert(false);
                }
                return Err(ContractError::MenteeNotFound);
            },
        }
        stats.increment_total_sessions();
        proof {
            assert(self.sessions@ =~= old(self).sessions@.push(self.sessions@.last()));
        }
        Ok(snap)
    }
}

/// The first rule an acceptance breaks, if any.
pub open spec fn accept_err(sm: SessionManager, mentor: u64, session_id: u64) -> Option<
    ContractError,
> {
    if !sm.has_session(session_id) {
        Some(ContractError::SessionNotFound)
    } else if sm.session_at(session_id).mentor != mentor {
        Some(ContractError::Unauthorized)
    } else if sm.session_at(session_id).status != SessionStatus::Pending {
        Some(ContractError::InvalidStatus)
    } else {
        None
    }
}

/// The first rule a completion submission breaks, if any.
pub open spec fn submit_err(sm: SessionManager, mentor: u64, session_id: u64) -> Option<
    ContractError,
> {
    if !sm.has_session(session_id) {
        Some(ContractError::SessionNotFound)
    } else if sm.session_at(session_id).mentor != mentor {
        Some(ContractError::Unauthorized)
    } else if sm.session_at(session_id).status != SessionStatus::Active {
        Some(ContractError::InvalidStatus)
    } else {
        None
    }
}

/// The first rule a completion verification breaks, if any.
pub open spec fn verify_err(
    sm: SessionManager,
    storage: Storage,
    mentee: u64,
    session_id: u64,
    rating: u32,
) -> Option<ContractError> {
    if rating == 0 || rating > 5 {
        Some(ContractError::InvalidRating)
    } else if !sm.has_session(session_id) {
        Some(ContractError::SessionNotFound)
    } else if sm.session_at(session_id).mentee != mentee {
        Some(ContractError::Unauthorized)
    } else if sm.session_at(session_id).status != SessionStatus::PendingVerification {
        Some(ContractError::InvalidStatus)
    } else if storage.reward_token is None || storage.admin is None {
        Some(ContractError::NotInitialized)
    } else {
        None
    }
}

/// The first rule a dispute breaks, if any.
pub open spec fn dispute_err(sm: SessionManager, caller: u64, session_id: u64) -> Option<
    ContractError,
> {
    if !sm.has_session(session_id) {
        Some(ContractError::SessionNotFound)
    } else if sm.session_at(session_id).mentor != caller && sm.session_at(session_id).mentee
        != caller {
        Some(ContractError::Unauthorized)
    } else if sm.session_at(session_id).status == SessionStatus::Disputed {
        Some(ContractError::SessionAlreadyDisputed)
    } else if sm.session_at(session_id).status != SessionStatus::Active && sm.session_at(
        session_id,
    ).status != SessionStatus::PendingVerification {
        Some(ContractError::InvalidStatus)
    } else {
        None
    }
}

/// The first rule a dispute resolution breaks, if any.
pub open spec fn resolve_err(
    sm: SessionManager,
    storage: Storage,
    admin: u64,
    session_id: u64,
) -> Option<ContractError> {
    if storage.admin is None {
        Some(ContractError::NotInitialized)
    } else if storage.admin != Some(admin) {
        Some(ContractError::Unauthorized)
    } else if !sm.has_session(session_id) {
        Some(ContractError::SessionNotFound)
    } else if sm.session_at(session_id).status != SessionStatus::Disputed {
        Some(ContractError::InvalidStatus)
    } else if storage.reward_token is None {
        Some(ContractError::NotInitialized)
    } else {
        None
    }
}

/// The first rule a cancellation breaks, if any.
pub open spec fn cancel_err(
    sm: SessionManager,
    storage: Storage,
    mentee: u64,
    session_id: u64,
) -> Option<ContractError> {
    if !sm.has_session(session_id) {
        Some(ContractError::SessionNotFound)
    } else if sm.session_at(session_id).mentee != mentee {
        Some(ContractError::Unauthorized)
    } else if sm.session_at(session_id).status != SessionStatus::Pending {
        Some(ContractError::InvalidStatus)
    } else if storage.reward_token is None {
        Some(ContractError::NotInitialized)
    } else {
        None
    }
}

impl SessionManager {
    /// The session's mentor takes the engagement on: `Pending` becomes
    /// `Active` and the mentor's accepted-session count grows by one.
    pub fn accept(
        &mut self,
        mentors: &mut MentorManager,
        mentor: u64,
        session_id: u64,
        now: u64,
    ) -> (r: Result<MentorshipSession, ContractError>)
        requires
            old(self).wf(),
            old(mentors).wf(),
            accept_err(*old(self), mentor, session_id) is None ==> has_mentor(
                old(mentors).profiles@,
                mentor,
            ) && mentor_at(old(mentors).profiles@, mentor).total_sessions < u32::MAX,
        ensures
            final(self).wf(),
            final(mentors).wf(),
            final(self).escrows == old(self).escrows,
            match r {
                Err(e) => accept_err(*old(self), mentor, session_id) == Some(e) && *final(self)
                    == *old(self) && *final(mentors) == *old(mentors),
                Ok(s) => {
                    let upd = MentorshipSession {
                        status: SessionStatus::Active,
                        accepted_at: now,
                        ..old(self).session_at(session_id)
                    };
                    &&& accept_err(*old(self), mentor, session_id) is None
                    &&& final(self).sessions@ == old(self).sessions@.update(
                        Self::idx(session_id),
                        upd,
                    )
                    &&& session_like(s, upd)
                    &&& final(mentors).profiles@ == old(mentors).profiles@.update(
                        crate::mentorship::mentor::mentor_idx(old(mentors).profiles@, mentor),
                        crate::mentorship::types::MentorProfile {
                            total_sessions: (mentor_at(
                                old(mentors).profiles@,
                                mentor,
                            ).total_sessions + 1) as u32,
                            ..mentor_at(old(mentors).profiles@, mentor)
                        },
                    )
                    &&& final(mentors).leaderboard == old(mentors).leaderboard
                },
            },
    {
        if session_id < 1 || session_id > self.sessions.len() as u64 {
            return Err(ContractError::SessionNotFound);
        }
        let i = (session_id - 1) as usize;
        if self.sessions[i].mentor != mentor {
            return Err(ContractError::Unauthorized);
        }
        if self.sessions[i].status != SessionStatus::Pending {
            return Err(ContractError::InvalidStatus);
        }
        let mut s = placeholder_session();
        self.sessions.set_and_swap(i, &mut s);
        s.status = SessionStatus::Active;
        s.accepted_at = now;
        let snap = s.snapshot();
        self.sessions.set(i, s);
        proof {
            assert(self.sessions@ =~= old(self).sessions@.update(
                Self::idx(session_id),
                MentorshipSession {
                    status: SessionStatus::Active,
                    accepted_at: now,
                    ..old(self).session_at(session_id)
                },
            ));
        }
        match mentors.record_session_accepted(mentor) {
            Ok(()) => {},
            Err(_) => {
                proof {
                    assert(false);
                }
                return Err(ContractError::MentorNotFound);
            },
        }
        Ok(snap)
    }

    /// The mentor reports the work done: `Active` becomes
    /// `PendingVerification` and the outcome notes are stored. No funds
    /// move.
    pub fn submit_completion(&mut self, mentor: u64, session_id: u64, outcome_notes: String) -> (r:
        Result<MentorshipSession, ContractError>)
        requires
            old(self).wf(),
        ensures
            final(self).wf(),
            final(self).escrows == old(self).escrows,
            match r {
                Err(e) => submit_err(*old(self), mentor, session_id) == Some(e) && *final(self)
                    == *old(self),
                Ok(s) => {
                    let upd = MentorshipSession {
                        status: SessionStatus::PendingVerification,
                        outcome_notes: outcome_notes,
                        ..old(self).session_at(session_id)
                    };
                    &&& submit_err(*old(self), mentor, session_id) is None
                    &&& final(self).sessions@ == old(self).sessions@.update(
                        Self::idx(session_id),
                        upd,
                    )
                    &&& session_like(s, upd)
                },
            },
    {
        if session_id < 1 || session_id > self.sessions.len() as u64 {
            return Err(ContractError::SessionNotFound);
        }
        let i = (session_id - 1) as usize;
        if self.sessions[i].mentor != mentor {
            return Err(ContractError::Unauthorized);
        }
        if self.sessions[i].status != SessionStatus::Active {
            return Err(ContractError::InvalidStatus);
        }
        let mut s = placeholder_session();
        self.sessions.set_and_swap(i, &mut s);
        s.outcome_notes = outcome_notes;
        s.status = SessionStatus::PendingVerification;
        let snap = s.snapshot();
        self.sessions.set(i, s);
        proof {
            assert(self.sessions@ =~= old(self).sessions@.update(
                Self::idx(session_id),
                MentorshipSession {
                    status: SessionStatus::PendingVerification,
                    outcome_notes: outcome_notes,
                    ..old(self).session_at(session_id)
                },
            ));
        }
        Ok(snap)
    }

    /// The mentee confirms the work with a rating from 1 to 5: the mentor is
    /// paid `reward - fee`, the administrator collects the fee if one is
    /// due, the escrow is released and every registry is updated. The
    /// session ends `Completed`.
    pub fn verify_completion(
        &mut self,
        storage: &Storage,
        token: &mut TokenLedger,
        mentors: &mut MentorManager,
        mentees: &mut MenteeManager,
        stats: &mut StatsManager,
        custody: u64,
        mentee: u64,
        session_id: u64,
        rating: u32,
        feedback: String,
        now: u64,
    ) -> (r: Result<MentorshipSession, ContractError>)
        requires
            old(self).wf(),
            storage.wf(),
            old(token).wf(),
            old(mentors).wf(),
            old(mentees).wf(),
            old(stats).wf(),
            old(token).spec_balance(custody) >= escrow_total(old(self).escrows@),
            verify_err(*old(self), *storage, mentee, session_id, rating) is None ==> ({
                let s = old(self).session_at(session_id);
                let payout = s.reward_amount - s.platform_fee;
                &&& has_mentor(old(mentors).profiles@, s.mentor)
                &&& mentor_at(old(mentors).profiles@, s.mentor).completed_sessions < mentor_at(
                    old(mentors).profiles@,
                    s.mentor,
                ).total_sessions
                &&& mentor_at(old(mentors).profiles@, s.mentor).total_rating + rating <= u32::MAX
                &&& mentor_at(old(mentors).profiles@, s.mentor).total_earned + payout <= i128::MAX
                &&& old(mentors).leaderboard@.len() + 1 < u32::MAX
                &&& has_mentee(old(mentees).profiles@, mentee)
                &&& mentee_at(old(mentees).profiles@, mentee).completed_sessions < mentee_at(
                    old(mentees).profiles@,
                    mentee,
                ).total_sessions
                &&& mentee_at(old(mentees).profiles@, mentee).total_spent + s.reward_amount
                    <= i128::MAX
                &&& old(stats).stats.completed_sessions < u32::MAX
                &&& old(stats).stats.total_rewards_distributed + payout <= i128::MAX
                &&& old(stats).stats.total_fees_collected + s.platform_fee <= i128::MAX
            }),
        ensures
            final(self).wf(),
            final(token).wf(),
            final(mentors).wf(),
            final(mentees).wf(),
            final(stats).wf(),
            final(token).spec_balance(custody) - escrow_total(final(self).escrows@) >= old(token).spec_balance(custody) - escrow_total(old(self).escrows@),
            match r {
                Err(e) => verify_err(*old(self), *storage, mentee, session_id, rating) == Some(e)
                    && *final(self) == *old(self) && *final(token) == *old(token) && *final(mentors)
                    == *old(mentors) && *final(mentees) == *old(mentees) && *final(stats) == *old(stats),
                Ok(s) => {
                    let olds = old(self).session_at(session_id);
                    let payout = olds.reward_amount - olds.platform_fee;
                    let adm = storage.admin->0;
                    let upd = MentorshipSession {
                        mentor_rating: rating,
                        mentee_feedback: feedback,
                        status: SessionStatus::Completed,
                        completed_at: now,
                        ..olds
                    };
                    &&& verify_err(*old(self), *storage, mentee, session_id, rating) is None
                    &&& final(self).sessions@ == old(self).sessions@.update(
                        Self::idx(session_id),
                        upd,
                    )
                    &&& session_like(s, upd)
                    &&& final(self).escrows@ == old(self).escrows@.update(
                        Self::idx(session_id),
                        None,
                    )
                    &&& escrow_total(final(self).escrows@) == escrow_total(old(self).escrows@)
                        - olds.reward_amount
                    &&& final(token).total() == old(token).total()
                    &&& forall|a: u64|
                        final(token).spec_balance(a) == old(token).spec_balance(a) + (
                        if a == olds.mentor {
                            payout as int
                        } else {
                            0
                        }) + (
                        if a == adm {
                            olds.platform_fee as int
                        } else {
                            0
                        }) - (
                        if a == custody {
                            olds.reward_amount as int
                        } else {
                            0
                        })
                    &&& final(mentors).profiles@ == old(mentors).profiles@.update(
                        crate::mentorship::mentor::mentor_idx(old(mentors).profiles@, olds.mentor),
                        crate::mentorship::mentor::profile_after_completion(
                            mentor_at(old(mentors).profiles@, olds.mentor),
                            rating,
                            payout as i128,
                        ),
                    )
                    &&& crate::mentorship::mentor::valid_board_update(
                        crate::mentorship::mentor::replace_or_append(
                            old(mentors).leaderboard@,
                            crate::mentorship::mentor::entry_for(
                                crate::mentorship::mentor::profile_after_completion(
                                    mentor_at(old(mentors).profiles@, olds.mentor),
                                    rating,
                                    payout as i128,
                                ),
                            ),
                        ),
                        final(mentors).leaderboard@,
                    )
                    &&& final(mentees).profiles@ == old(mentees).profiles@.update(
                        mentee_idx(old(mentees).profiles@, mentee),
                        MenteeProfile {
                            completed_sessions: (mentee_at(
                                old(mentees).profiles@,
                                mentee,
                            ).completed_sessions + 1) as u32,
                            total_spent: (mentee_at(old(mentees).profiles@, mentee).total_spent
                                + olds.reward_amount) as i128,
                            ..mentee_at(old(mentees).profiles@, mentee)
                        },
                    )
                    &&& final(stats).stats == (PlatformStats {
                        completed_sessions: (old(stats).stats.completed_sessions + 1) as u32,
                        total_rewards_distributed: (old(stats).stats.total_rewards_distributed
                            + payout) as i128,
                        total_fees_collected: (old(stats).stats.total_fees_collected
                            + olds.platform_fee) as i128,
                        ..old(stats).stats
                    })
                },
            },
    {
        if rating == 0 || rating > 5 {
            return Err(ContractError::InvalidRating);
        }
        if session_id < 1 || session_id > self.sessions.len() as u64 {
            return Err(ContractError::SessionNotFound);
        }
        let i = (session_id - 1) as usize;
        if self.sessions[i].mentee != mentee {
            return Err(ContractError::Unauthorized);
        }
        if self.sessions[i].status != SessionStatus::PendingVerification {
            return Err(ContractError::InvalidStatus);
        }
        if let Err(e) = storage.get_reward_token() {
            return Err(e);
        }
        let admin = match storage.get_admin() {
            Ok(a) => a,
            Err(e) => {
                return Err(e);
            },
        };
        let reward = self.sessions[i].reward_amount;
        let fee = self.sessions[i].platform_fee;
        let mentor_addr = self.sessions[i].mentor;
        let payout = reward - fee;
        proof {
            self.lemma_wf_escrows();
            lemma_escrow_le_total(self.escrows@, i as int);
        }
        if let Err(_) = token.transfer(custody, mentor_addr, payout) {
            proof {
                assert(false);
            }
            return Err(ContractError::InsufficientEscrow);
        }
        if fee > 0 {
            if let Err(_) = token.transfer(custody, admin, fee) {
                proof {
                    assert(false);
                }
                return Err(ContractError::InsufficientEscrow);
            }
        }
        proof {
            lemma_escrow_update(self.escrows@, i as int, None);
        }
        self.escrows.set(i, None);
        let mut s = placeholder_session();
        self.sessions.set_and_swap(i, &mut s);
        s.mentor_rating = rating;
        s.mentee_feedback = feedback;
        s.status = SessionStatus::Completed;
        s.completed_at = now;
        let snap = s.snapshot();
        self.sessions.set(i, s);
        proof {
            assert(self.sessions@ =~= old(self).sessions@.update(
                Self::idx(session_id),
                MentorshipSession {
                    mentor_rating: rating,
                    mentee_feedback: feedback,
                    status: SessionStatus::Completed,
                    completed_at: now,
                    ..old(self).session_at(session_id)
                },
            ));
        }
        match mentors.record_completion(mentor_addr, rating, payout) {
            Ok(()) => {},
            Err(_) => {
                proof {
                    assert(false);
                }
                return Err(ContractError::MentorNotFound);
            },
        }
        match mentees.record_completion(mentee, reward) {
            Ok(()) => {},
            Err(_) => {
                proof {
                    assert(false);
                }
                return Err(ContractError::MenteeNotFound);
            },
        }
        stats.record_completion(reward, fee);
        Ok(snap)
    }

    /// Either party contests an `Active` or `PendingVerification` session;
    /// a session already under dispute cannot be disputed again. Funds stay
    /// in custody.
    pub fn dispute(
        &mut self,
        stats: &mut StatsManager,
        caller: u64,
        session_id: u64,
        reason: String,
    ) -> (r: Result<MentorshipSession, ContractError>)
        requires
            old(self).wf(),
            old(stats).wf(),
            dispute_err(*old(self), caller, session_id) is None ==> old(stats).stats.disputed_sessions < u32::MAX,
        ensures
            final(self).wf(),
            final(stats).wf(),
            final(self).escrows == old(self).escrows,
            match r {
                Err(e) => dispute_err(*old(self), caller, session_id) == Some(e) && *final(self)
                    == *old(self) && *final(stats) == *old(stats),
                Ok(s) => {
                    let upd = MentorshipSession {
                        status: SessionStatus::Disputed,
                        dispute_reason: reason,
                        ..old(self).session_at(session_id)
                    };
                    &&& dispute_err(*old(self), caller, session_id) is None
                    &&& final(self).sessions@ == old(self).sessions@.update(
                        Self::idx(session_id),
                        upd,
                    )
                    &&& session_like(s, upd)
                    &&& final(stats).stats == (PlatformStats {
                        disputed_sessions: (old(stats).stats.disputed_sessions + 1) as u32,
                        ..old(stats).stats
                    })
                },
            },
    {
        if session_id < 1 || session_id > self.sessions.len() as u64 {
            return Err(ContractError::SessionNotFound);
        }
        let i = (session_id - 1) as usize;
        if self.sessions[i].mentor != caller && self.sessions[i].mentee != caller {
            return Err(ContractError::Unauthorized);
        }
        if self.sessions[i].status == SessionStatus::Disputed {
            return Err(ContractError::SessionAlreadyDisputed);
        }
        if self.sessions[i].status != SessionStatus::Active && self.sessions[i].status
            != SessionStatus::PendingVerification {
            return Err(ContractError::InvalidStatus);
        }
        let mut s = placeholder_session();
        self.sessions.set_and_swap(i, &mut s);
        s.status = SessionStatus::Disputed;
        s.dispute_reason = reason;
        let snap = s.snapshot();
        self.sessions.set(i, s);
        proof {
            assert(self.sessions@ =~= old(self).sessions@.update(
                Self::idx(session_id),
                MentorshipSession {
                    status: SessionStatus::Disputed,
                    dispute_reason: reason,
                    ..old(self).session_at(session_id)
                },
            ));
        }
        stats.increment_disputed();
        Ok(snap)
    }

    /// The administrator settles a `Disputed` session. Every outcome
    /// disburses the whole escrowed reward: to the mentor minus the fee, to
    /// the mentee in full, or split between them with the mentee taking the
    /// odd unit. The session ends `Resolved`.
    pub fn resolve_dispute(
        &mut self,
        storage: &Storage,
        token: &mut TokenLedger,
        stats: &mut StatsManager,
        custody: u64,
        admin: u64,
        session_id: u64,
        outcome: DisputeOutcome,
        now: u64,
    ) -> (r: Result<MentorshipSession, ContractError>)
        requires
            old(self).wf(),
            storage.wf(),
            old(token).wf(),
            old(stats).wf(),
            old(token).spec_balance(custody) >= escrow_total(old(self).escrows@),
            (resolve_err(*old(self), *storage, admin, session_id) is None && outcome
                == DisputeOutcome::FavorMentor) ==> ({
                let s = old(self).session_at(session_id);
                let payout = s.reward_amount - s.platform_fee;
                &&& old(stats).stats.completed_sessions < u32::MAX
                &&& old(stats).stats.total_rewards_distributed + payout <= i128::MAX
                &&& old(stats).stats.total_fees_collected + s.platform_fee <= i128::MAX
            }),
        ensures
            final(self).wf(),
            final(token).wf(),
            final(stats).wf(),
            final(token).spec_balance(custody) - escrow_total(final(self).escrows@) >= old(token).spec_balance(custody) - escrow_total(old(self).escrows@),
            match r {
                Err(e) => resolve_err(*old(self), *storage, admin, session_id) == Some(e) && *final(self) == *old(self) && *final(token) == *old(token) && *final(stats) == *old(stats),
                Ok(s) => {
                    let olds = old(self).session_at(session_id);
                    let total = olds.reward_amount;
                    let fee = olds.platform_fee;
                    let upd = MentorshipSession {
                        status: SessionStatus::Resolved,
                        dispute_outcome: Some(outcome),
                        completed_at: now,
                        ..olds
                    };
                    &&& resolve_err(*old(self), *storage, admin, session_id) is None
                    &&& final(self).sessions@ == old(self).sessions@.update(
                        Self::idx(session_id),
                        upd,
                    )
                    &&& session_like(s, upd)
                    &&& final(self).escrows@ == old(self).escrows@.update(
                        Self::idx(session_id),
                        None,
                    )
                    &&& escrow_total(final(self).escrows@) == escrow_total(old(self).escrows@)
                        - total
                    &&& final(token).total() == old(token).total()
                    &&& (match outcome {
                        DisputeOutcome::FavorMentor => forall|a: u64|
                            final(token).spec_balance(a) == old(token).spec_balance(a) + (
                            if a == olds.mentor {
                                (total - fee) as int
                            } else {
                                0
                            }) + (
                            if a == admin {
                                fee as int
                            } else {
                                0
                            }) - (
                            if a == custody {
                                total as int
                            } else {
                                0
                            }),
                        DisputeOutcome::FavorMentee => forall|a: u64|
                            final(token).spec_balance(a) == old(token).spec_balance(a) + (
                            if a == olds.mentee {
                                total as int
                            } else {
                                0
                            }) - (
                            if a == custody {
                                total as int
                            } else {
                                0
                            }),
                        DisputeOutcome::Split => forall|a: u64|
                            final(token).spec_balance(a) == old(token).spec_balance(a) + (
                            if a == olds.mentor {
                                (total / 2) as int
                            } else {
                                0
                            }) + (
                            if a == olds.mentee {
                                (total - total / 2) as int
                            } else {
                                0
                            }) - (
                            if a == custody {
                                total as int
                            } else {
                                0
                            }),
                    })
                    &&& (match outcome {
                        DisputeOutcome::FavorMentor => final(stats).stats == (PlatformStats {
                            completed_sessions: (old(stats).stats.completed_sessions + 1) as u32,
                            total_rewards_distributed: (old(stats).stats.total_rewards_distributed + (total - fee)) as i128,
                            total_fees_collected: (old(stats).stats.total_fees_collected
                                + fee) as i128,
                            ..old(stats).stats
                        }),
                        _ => *final(stats) == *old(stats),
                    })
                },
            },
    {
        match storage.require_admin(admin) {
            Ok(()) => {},
            Err(e) => {
                return Err(e);
            },
        }
        if session_id < 1 || session_id > self.sessions.len() as u64 {
            return Err(ContractError::SessionNotFound);
        }
        let i = (session_id - 1) as usize;
        if self.sessions[i].status != SessionStatus::Disputed {
            return Err(ContractError::InvalidStatus);
        }
        if let Err(e) = storage.get_reward_token() {
            return Err(e);
        }
        let total = self.sessions[i].reward_amount;
        let fee = self.sessions[i].platform_fee;
        let mentor_addr = self.sessions[i].mentor;
        let mentee_addr = self.sessions[i].mentee;
        proof {
            self.lemma_wf_escrows();
            lemma_escrow_le_total(self.escrows@, i as int);
        }
        match outcome {
            DisputeOutcome::FavorMentor => {
                let payout = total - fee;
                if let Err(_) = token.transfer(custody, mentor_addr, payout) {
                    proof {
                        assert(false);
                    }
                    return Err(ContractError::InsufficientEscrow);
                }
                if fee > 0 {
                    if let Err(_) = token.transfer(custody, admin, fee) {
                        proof {
                            assert(false);
                        }
                        return Err(ContractError::InsufficientEscrow);
                    }
                }
                stats.record_completion(total, fee);
            },
            DisputeOutcome::FavorMentee => {
                if let Err(_) = token.transfer(custody, mentee_addr, total) {
                    proof {
                        assert(false);
                    }
                    return Err(ContractError::InsufficientEscrow);
                }
            },
            DisputeOutcome::Split => {
                let half = total / 2;
                let remainder = total - half;
                if let Err(_) = token.transfer(custody, mentor_addr, half) {
                    proof {
                        assert(false);
                    }
                    return Err(ContractError::InsufficientEscrow);
                }
                if let Err(_) = token.transfer(custody, mentee_addr, remainder) {
                    proof {
                        assert(false);
                    }
                    return Err(ContractError::InsufficientEscrow);
                }
            },
        }
        proof {
            lemma_escrow_update(self.escrows@, i as int, None);
        }
        self.escrows.set(i, None);
        let mut s = placeholder_session();
        self.sessions.set_and_swap(i, &mut s);
        s.status = SessionStatus::Resolved;
        s.dispute_outcome = Some(outcome);
        s.completed_at = now;
        let snap = s.snapshot();
        self.sessions.set(i, s);
        proof {
            assert(self.sessions@ =~= old(self).sessions@.update(
                Self::idx(session_id),
                MentorshipSession {
                    status: SessionStatus::Resolved,
                    dispute_outcome: Some(outcome),
                    completed_at: now,
                    ..old(self).session_at(session_id)
                },
            ));
        }
        Ok(snap)
    }

    /// The mentee withdraws a session its mentor has not yet accepted: the
    /// full reward is refunded and the session ends `Cancelled`.
    pub fn cancel(
        &mut self,
        storage: &Storage,
        token: &mut TokenLedger,
        custody: u64,
        mentee: u64,
        session_id: u64,
    ) -> (r: Result<MentorshipSession, ContractError>)
        requires
            old(self).wf(),
            storage.wf(),
            old(token).wf(),
            old(token).spec_balance(custody) >= escrow_total(old(self).escrows@),
        ensures
            final(self).wf(),
            final(token).wf(),
            final(token).spec_balance(custody) - escrow_total(final(self).escrows@) >= old(token).spec_balance(custody) - escrow_total(old(self).escrows@),
            match r {
                Err(e) => cancel_err(*old(self), *storage, mentee, session_id) == Some(e) && *final(self) == *old(self) && *final(token) == *old(token),
                Ok(s) => {
                    let olds = old(self).session_at(session_id);
                    let upd = MentorshipSession { status: SessionStatus::Cancelled, ..olds };
                    &&& cancel_err(*old(self), *storage, mentee, session_id) is None
                    &&& final(self).sessions@ == old(self).sessions@.update(
                        Self::idx(session_id),
                        upd,
                    )
                    &&& session_like(s, upd)
                    &&& final(self).escrows@ == old(self).escrows@.update(
                        Self::idx(session_id),
                        None,
                    )
                    &&& escrow_total(final(self).escrows@) == escrow_total(old(self).escrows@)
                        - olds.reward_amount
                    &&& final(token).total() == old(token).total()
                    &&& forall|a: u64|
                        final(token).spec_balance(a) == old(token).spec_balance(a) + (
                        if a == mentee {
                            olds.reward_amount as int
                        } else {
                            0
                        }) - (
                        if a == custody {
                            olds.reward_amount as int
                        } else {
                            0
                        })
                },
            },
    {
        if session_id < 1 || session_id > self.sessions.len() as u64 {
            return Err(ContractError::SessionNotFound);
        }
        let i = (session_id - 1) as usize;
        if self.sessions[i].mentee != mentee {
            return Err(ContractError::Unauthorized);
        }
        if self.sessions[i].status != SessionStatus::Pending {
            return Err(ContractError::InvalidStatus);
        }
        if let Err(e) = storage.get_reward_token() {
            return Err(e);
        }
        let total = self.sessions[i].reward_amount;
        proof {
            self.lemma_wf_escrows();
            lemma_escrow_le_total(self.escrows@, i as int);
        }
        if let Err(_) = token.transfer(custody, mentee, total) {
            proof {
                assert(false);
            }
            return Err(ContractError::InsufficientEscrow);
        }
        proof {
            lemma_escrow_update(self.escrows@, i as int, None);
        }
        self.escrows.set(i, None);
        let mut s = placeholder_session();
        self.sessions.set_and_swap(i, &mut s);
        s.status = SessionStatus::Cancelled;
        let snap = s.snapshot();
        self.sessions.set(i, s);
        proof {
            assert(self.sessions@ =~= old(self).sessions@.update(
                Self::idx(session_id),
                MentorshipSession {
                    status: SessionStatus::Cancelled,
                    ..old(self).session_at(session_id)
                },
            ));
        }
        Ok(snap)
    }
}

/// An inert record used to swap a stored session out of the vector while it
/// is edited.
fn placeholder_session() -> (r: MentorshipSession)
{
    MentorshipSession {
        session_id: 1,
        mentor: 0,
        mentee: 1,
        category: SkillCategory::Logic,
        goal: String::new(),
        reward_amount: 1,
        platform_fee: 0,
        status: SessionStatus::Cancelled,
        mentor_rating: 0,
        mentee_feedback: String::new(),
        outcome_notes: String::new(),
        dispute_reason: String::new(),
        dispute_outcome: None,
        created_at: 0,
        accepted_at: 0,
        completed_at: 0,
    }
}

/// Whether `v` lists `c`.
fn skills_contain(v: &Vec<SkillCategory>, c: SkillCategory) -> (r: bool)
    ensures
        r == v@.contains(c),
{
    let mut k: usize = 0;
    while k < v.len()
        invariant
            k <= v@.len(),
            forall|j: int| 0 <= j < k ==> v@[j] != c,
        decreases v@.len() - k,
    {
        if v[k] == c {
            return true;
        }
        k = k + 1;
    }
    false
}

} // verus!
