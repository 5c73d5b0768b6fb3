//! One deployed mentorship platform instance: configuration, token ledger,
//! registries, sessions and statistics, with the platform-wide invariants
//! tying them together.

use vstd::prelude::*;

use crate::mentorship::errors::ContractError;
use crate::mentorship::mentee::{has_mentee, mentee_at, mentee_idx, MenteeManager};
use crate::mentorship::mentor::{
    entry_for, has_mentor, mentor_at, mentor_idx, profile_after_completion, replace_or_append,
    valid_board_update, MentorManager,
};
use crate::mentorship::session::{
    accept_err, cancel_err, create_err, dispute_err, escrow_total, fee_of, fresh_session,
    mentee_session_ids, mentor_session_ids, resolve_err, submit_err, verify_err, SessionManager,
};
use crate::mentorship::stats::StatsManager;
use crate::mentorship::storage::{Storage, MAX_FEE_BPS};
use crate::mentorship::token::TokenLedger;
use crate::mentorship::types::{
    mentor_profile_like, session_like, DisputeOutcome, MenteeProfile, MentorLeaderboardEntry,
    MentorProfile, MentorshipSession, PlatformStats, SessionStatus, SkillCategory,
};

verus! {

/// A mentorship platform instance together with the ledger of its reward
/// asset. `contract_address` is the platform's own custody account.
pub struct PeerLearningContract {
    pub contract_address: u64,
    pub storage: Storage,
    pub token: TokenLedger,
    pub mentors: MentorManager,
    pub mentees: MenteeManager,
    pub sessions: SessionManager,
    pub stats: StatsManager,
}

impl PeerLearningContract {
    /// Platform-wide invariant: each component is well formed, session ids
    /// come from the counter, every session's parties are registered and are
    /// not the custody account, the custody account covers all outstanding
    /// escrow, and the aggregate counters match the registries.
    pub open spec fn wf(self) -> bool {
        &&& self.storage.wf()
        &&& self.token.wf()
        &&& self.mentors.wf()
        &&& self.mentees.wf()
        &&& self.sessions.wf()
        &&& self.stats.wf()
        &&& self.storage.session_counter == self.sessions.sessions@.len()
        &&& self.token.spec_balance(self.contract_address) >= escrow_total(self.sessions.escrows@)
        &&& forall|i: int|
            0 <= i < self.sessions.sessions@.len() ==> has_mentor(
                self.mentors.profiles@,
                (#[trigger] self.sessions.sessions@[i]).mentor,
            ) && has_mentee(self.mentees.profiles@, self.sessions.sessions@[i].mentee)
        &&& !has_mentee(self.mentees.profiles@, self.contract_address)
        &&& !has_mentor(self.mentors.profiles@, self.contract_address)
        &&& self.stats.stats.total_mentors == self.mentors.profiles@.len()
        &&& self.stats.stats.total_mentees == self.mentees.profiles@.len()
        &&& self.stats.stats.total_sessions == self.sessions.sessions@.len()
    }

    /// A fresh, unconfigured platform whose custody account is
    /// `contract_address`.
    pub fn new(contract_address: u64) -> (r: PeerLearningContract)
        ensures
            r.wf(),
            r.contract_address == contract_address,
            !r.storage.initialized,
            (r.storage.admin is None),
            r.sessions.sessions@.len() == 0,
            r.mentors.profiles@.len() == 0,
            r.mentees.profiles@.len() == 0,
            r.token.total() == 0,
            forall|a: u64| r.token.spec_balance(a) == 0,
    {
        let r = PeerLearningContract {
            contract_address,
            storage: Storage::new(),
            token: TokenLedger::new(),
            mentors: MentorManager::new(),
            mentees: MenteeManager::new(),
            sessions: SessionManager::new(),
            stats: StatsManager::new(),
        };
        r
    }

    /// Configures administrator, reward token and fee rate, exactly once.
    /// The fee is capped at 3000 basis points.
    pub fn initialize(&mut self, admin: u64, reward_token: u64, platform_fee_bps: u32) -> (r:
        Result<(), ContractError>)
        requires
            old(self).wf(),
        ensures
            final(self).wf(),
            r is Err <==> (platform_fee_bps > MAX_FEE_BPS || old(self).storage.initialized),
            r is Err ==> *final(self) == *old(self) && r == Err::<(), ContractError>(
                if platform_fee_bps > MAX_FEE_BPS {
                    ContractError::InvalidFeeRate
                } else {
                    ContractError::AlreadyInitialized
                },
            ),
            r is Ok ==> *final(self) == (PeerLearningContract {
                storage: Storage {
                    initialized: true,
                    admin: Some(admin),
                    reward_token: Some(reward_token),
                    platform_fee_bps: Some(platform_fee_bps),
                    ..old(self).storage
                },
                ..*old(self)
            }),
    {
        if platform_fee_bps > MAX_FEE_BPS {
            return Err(ContractError::InvalidFeeRate);
        }
        if let Err(e) = self.storage.set_initialized() {
            return Err(e);
        }
        self.storage.set_admin(admin);
        self.storage.set_reward_token(reward_token);
        self.storage.set_platform_fee_bps(platform_fee_bps);
        Ok(())
    }

    /// Registers an authenticated caller as a mentor. The platform's own
    /// account cannot register.
    pub fn register_mentor(
        &mut self,
        caller: u64,
        skills: Vec<SkillCategory>,
        hourly_rate: i128,
        now: u64,
    ) -> (r: Result<MentorProfile, ContractError>)
        requires
            old(self).wf(),
            old(self).mentors.profiles@.len() < u32::MAX,
        ensures
            final(self).wf(),
            final(self).contract_address == old(self).contract_address,
            r is Err <==> (caller == old(self).contract_address || has_mentor(
                old(self).mentors.profiles@,
                caller,
            ) || hourly_rate <= 0),
            r is Err ==> *final(self) == *old(self) && r == Err::<MentorProfile, ContractError>(
                if caller == old(self).contract_address {
                    ContractError::Unauthorized
                } else if has_mentor(old(self).mentors.profiles@, caller) {
                    ContractError::AlreadyRegistered
                } else {
                    ContractError::InvalidRewardAmount
                },
            ),
            r is Ok ==> final(self).mentors.profiles@ == old(self).mentors.profiles@.push(
                MentorProfile {
                    address: caller,
                    skills: skills,
                    hourly_rate: hourly_rate,
                    total_sessions: 0,
                    completed_sessions: 0,
                    total_rating: 0,
                    rating_count: 0,
                    reputation_score: 0,
                    total_earned: 0,
                    registered_at: now,
                    is_active: true,
                },
            ) && mentor_profile_like(r->Ok_0, final(self).mentors.profiles@.last()) && final(self).stats.stats == (PlatformStats {
                total_mentors: (old(self).stats.stats.total_mentors + 1) as u32,
                ..old(self).stats.stats
            }) && final(self).mentors.leaderboard == old(self).mentors.leaderboard && final(self).storage == old(self).storage && final(self).token == old(self).token && final(self).mentees == old(self).mentees && final(self).sessions == old(self).sessions,
    {
        if caller == self.contract_address {
            return Err(ContractError::Unauthorized);
        }
        let profile = match self.mentors.register(caller, skills, hourly_rate, now) {
            Ok(p) => p,
            Err(e) => {
                return Err(e);
            },
        };
        self.stats.increment_mentors();
        proof {
            let news = self.sessions.sessions@;
            assert forall|i: int| 0 <= i < news.len() implies has_mentor(
                self.mentors.profiles@,
                (#[trigger] news[i]).mentor,
            ) by {
                let m = news[i].mentor;
                let w = choose|w: int|
                    0 <= w < old(self).mentors.profiles@.len() && old(self).mentors.profiles@[w].address == m;
                assert(self.mentors.profiles@[w].address == m);
            }
        }
        Ok(profile)
    }

    /// Registers an authenticated caller as a mentee. The platform's own
    /// account cannot register.
    pub fn register_mentee(&mut self, caller: u64, now: u64) -> (r: Result<
        MenteeProfile,
        ContractError,
    >)
        requires
            old(self).wf(),
            old(self).mentees.profiles@.len() < u32::MAX,
        ensures
            final(self).wf(),
            final(self).contract_address == old(self).contract_address,
            r is Err <==> (caller == old(self).contract_address || has_mentee(
                old(self).mentees.profiles@,
                caller,
            )),
            r is Err ==> *final(self) == *old(self) && r == Err::<MenteeProfile, ContractError>(
                if caller == old(self).contract_address {
                    ContractError::Unauthorized
                } else {
                    ContractError::AlreadyRegistered
                },
            ),
            r is Ok ==> r->Ok_0 == (MenteeProfile {
                address: caller,
                total_sessions: 0,
                completed_sessions: 0,
                total_spent: 0,
                registered_at: now,
                is_active: true,
            }) && final(self).mentees.profiles@ == old(self).mentees.profiles@.push(r->Ok_0)
                && final(self).stats.stats == (PlatformStats {
                total_mentees: (old(self).stats.stats.total_mentees + 1) as u32,
                ..old(self).stats.stats
            }) && final(self).storage == old(self).storage && final(self).token == old(self).token
                && final(self).mentors == old(self).mentors && final(self).sessions == old(self).sessions,
    {
        if caller == self.contract_address {
            return Err(ContractError::Unauthorized);
        }
        let profile = match self.mentees.register(caller, now) {
            Ok(p) => p,
            Err(e) => {
                return Err(e);
            },
        };
        self.stats.increment_mentees();
        proof {
            let news = self.sessions.sessions@;
            assert forall|i: int| 0 <= i < news.len() implies has_mentee(
                self.mentees.profiles@,
                (#[trigger] news[i]).mentee,
            ) by {
                let m = news[i].mentee;
                let w = choose|w: int|
                    0 <= w < old(self).mentees.profiles@.len() && old(self).mentees.profiles@[w].address == m;
                assert(self.mentees.profiles@[w].address == m);
            }
        }
        Ok(profile)
    }

    /// Switches the caller's mentor profile between active and inactive.
    pub fn set_mentor_active(&mut self, caller: u64, active: bool) -> (r: Result<
        (),
        ContractError,
    >)
        requires
            old(self).wf(),
        ensures
            final(self).wf(),
            r is Ok <==> has_mentor(old(self).mentors.profiles@, caller),
            r is Err ==> *final(self) == *old(self) && r == Err::<(), ContractError>(
                ContractError::MentorNotFound,
            ),
            r is Ok ==> final(self).mentors.profiles@ == old(self).mentors.profiles@.update(
                mentor_idx(old(self).mentors.profiles@, caller),
                MentorProfile {
                    is_active: active,
                    ..mentor_at(old(self).mentors.profiles@, caller)
                },
            ) && *final(self) == (PeerLearningContract {
                mentors: final(self).mentors,
                ..*old(self)
            }) && final(self).mentors.leaderboard == old(self).mentors.leaderboard,
    {
        let r = self.mentors.set_active(caller, active);
        proof {
            if r is Ok {
                lemma_mentor_addresses_kept(old(self).mentors.profiles@, self.mentors.profiles@);
            }
        }
        r
    }
}

impl PeerLearningContract {
    /// Opens a session: validates everything, escrows the reward from the
    /// mentee into the platform's custody account, and stores the `Pending`
    /// record under the next session id. Nothing changes on a rejection.
    pub fn create_session(
        &mut self,
        mentee: u64,
        mentor: u64,
        category: SkillCategory,
        goal: String,
        reward_amount: i128,
        now: u64,
    ) -> (r: Result<MentorshipSession, ContractError>)
        requires
            old(self).wf(),
            reward_amount <= i128::MAX / 10000,
            old(self).sessions.sessions@.len() < u32::MAX,
            has_mentee(old(self).mentees.profiles@, mentee) ==> mentee_at(
                old(self).mentees.profiles@,
                mentee,
            ).total_sessions < u32::MAX,
        ensures
            final(self).wf(),
            final(self).contract_address == old(self).contract_address,
            match r {
                Err(e) => create_err(
                    old(self).storage,
                    old(self).token,
                    old(self).mentors,
                    old(self).mentees,
                    mentee,
                    mentor,
                    category,
                    goal@,
                    reward_amount,
                ) == Some(e) && *final(self) == *old(self),
                Ok(s) => {
                    let fee = fee_of(reward_amount, old(self).storage.spec_fee_bps());
                    let id = old(self).storage.session_counter + 1;
                    let custody = old(self).contract_address;
                    &&& create_err(
                        old(self).storage,
                        old(self).token,
                        old(self).mentors,
                        old(self).mentees,
                        mentee,
                        mentor,
                        category,
                        goal@,
                        reward_amount,
                    ) is None
                    &&& final(self).sessions.sessions@ == old(self).sessions.sessions@.push(
                        final(self).sessions.sessions@.last(),
                    )
                    &&& fresh_session(
                        final(self).sessions.sessions@.last(),
                        mentor,
                        mentee,
                        category,
                        goal@,
                        reward_amount,
                        fee,
                        id as int,
                        now,
                    )
                    &&& session_like(s, final(self).sessions.sessions@.last())
                    &&& final(self).sessions.escrows@ == old(self).sessions.escrows@.push(
                        Some(reward_amount),
                    )
                    &&& final(self).storage == (Storage {
                        session_counter: (old(self).storage.session_counter + 1) as u64,
                        ..old(self).storage
                    })
                    &&& final(self).token.total() == old(self).token.total()
                    &&& forall|a: u64|
                        final(self).token.spec_balance(a) == old(self).token.spec_balance(a) + (
                        if a == custody {
                            reward_amount as int
                        } else {
                            0
                        }) - (
                        if a == mentee {
                            reward_amount as int
                        } else {
                            0
                        })
                    &&& final(self).mentees.profiles@ == old(self).mentees.profiles@.update(
                        mentee_idx(old(self).mentees.profiles@, mentee),
                        MenteeProfile {
                            total_sessions: (mentee_at(
                                old(self).mentees.profiles@,
                                mentee,
                            ).total_sessions + 1) as u32,
                            ..mentee_at(old(self).mentees.profiles@, mentee)
                        },
                    )
                    &&& final(self).stats.stats == (PlatformStats {
                        total_sessions: (old(self).stats.stats.total_sessions + 1) as u32,
                        ..old(self).stats.stats
                    })
                    &&& final(self).mentors == old(self).mentors
                },
            },
    {
        let custody = self.contract_address;
        let ghost pre = *old(self);
        let r = self.sessions.create(
            &mut self.storage,
            &mut self.token,
            &self.mentors,
            &mut self.mentees,
            &mut self.stats,
            custody,
            mentee,
            mentor,
            category,
            goal,
            reward_amount,
            now,
        );
        proof {
            if r is Ok {
                lemma_mentee_addresses_kept(pre.mentees.profiles@, self.mentees.profiles@);
                let news = self.sessions.sessions@;
                assert forall|i: int| 0 <= i < news.len() implies has_mentor(
                    self.mentors.profiles@,
                    (#[trigger] news[i]).mentor,
                ) && has_mentee(self.mentees.profiles@, news[i].mentee) by {
                    if i < news.len() - 1 {
                        assert(news[i] == pre.sessions.sessions@[i]);
                    }
                }
            }
        }
        r
    }

    /// The session's mentor takes it on: `Pending` becomes `Active`.
    pub fn accept_session(&mut self, mentor: u64, session_id: u64, now: u64) -> (r: Result<
        MentorshipSession,
        ContractError,
    >)
        requires
            old(self).wf(),
            accept_err(old(self).sessions, mentor, session_id) is None ==> mentor_at(
                old(self).mentors.profiles@,
                mentor,
            ).total_sessions < u32::MAX,
        ensures
            final(self).wf(),
            final(self).contract_address == old(self).contract_address,
            match r {
                Err(e) => accept_err(old(self).sessions, mentor, session_id) == Some(e) && *final(self) == *old(self),
                Ok(s) => {
                    let upd = MentorshipSession {
                        status: SessionStatus::Active,
                        accepted_at: now,
                        ..old(self).sessions.session_at(session_id)
                    };
                    &&& accept_err(old(self).sessions, mentor, session_id) is None
                    &&& final(self).sessions.sessions@ == old(self).sessions.sessions@.update(
                        SessionManager::idx(session_id),
                        upd,
                    )
                    &&& session_like(s, upd)
                    &&& final(self).mentors.profiles@ == old(self).mentors.profiles@.update(
                        mentor_idx(old(self).mentors.profiles@, mentor),
                        MentorProfile {
                            total_sessions: (mentor_at(
                                old(self).mentors.profiles@,
                                mentor,
                            ).total_sessions + 1) as u32,
                            ..mentor_at(old(self).mentors.profiles@, mentor)
                        },
                    )
                    &&& final(self).mentors.leaderboard == old(self).mentors.leaderboard
                    &&& final(self).sessions.escrows == old(self).sessions.escrows
                    &&& final(self).storage == old(self).storage
                    &&& final(self).token == old(self).token
                    &&& final(self).mentees == old(self).mentees
                    &&& final(self).stats == old(self).stats
                },
            },
    {
        let ghost pre = *old(self);
        proof {
            if accept_err(pre.sessions, mentor, session_id) is None {
                assert(pre.sessions.sessions@[SessionManager::idx(session_id)].mentor == mentor);
            }
        }
        let r = self.sessions.accept(&mut self.mentors, mentor, session_id, now);
        proof {
            if r is Ok {
                lemma_mentor_addresses_kept(pre.mentors.profiles@, self.mentors.profiles@);
                lemma_sessions_parties_kept(pre, *self);
            }
        }
        r
    }

    /// The mentor reports the work done: `Active` becomes
    /// `PendingVerification`.
    pub fn submit_completion(&mut self, mentor: u64, session_id: u64, outcome_notes: String) -> (r:
        Result<MentorshipSession, ContractError>)
        requires
            old(self).wf(),
        ensures
            final(self).wf(),
            final(self).contract_address == old(self).contract_address,
            match r {
                Err(e) => submit_err(old(self).sessions, mentor, session_id) == Some(e) && *final(self) == *old(self),
                Ok(s) => {
                    let upd = MentorshipSession {
                        status: SessionStatus::PendingVerification,
                        outcome_notes: outcome_notes,
                        ..old(self).sessions.session_at(session_id)
                    };
                    &&& submit_err(old(self).sessions, mentor, session_id) is None
                    &&& final(self).sessions.sessions@ == old(self).sessions.sessions@.update(
                        SessionManager::idx(session_id),
                        upd,
                    )
                    &&& session_like(s, upd)
                    &&& final(self).sessions.escrows == old(self).sessions.escrows
                    &&& *final(self) == (PeerLearningContract {
                        sessions: final(self).sessions,
                        ..*old(self)
                    })
                },
            },
    {
        let ghost pre = *old(self);
        let r = self.sessions.submit_completion(mentor, session_id, outcome_notes);
        proof {
            if r is Ok {
                lemma_sessions_parties_kept(pre, *self);
            }
        }
        r
    }

    /// The mentee confirms the work with a rating from 1 to 5: the mentor is
    /// paid `reward - fee`, the administrator collects any nonzero fee, the
    /// escrow is released, profiles, statistics and the leaderboard are
    /// updated, and the session ends `Completed`.
    pub fn verify_completion(
        &mut self,
        mentee: u64,
        session_id: u64,
        rating: u32,
        feedback: String,
        now: u64,
    ) -> (r: Result<MentorshipSession, ContractError>)
        requires
            old(self).wf(),
            verify_err(old(self).sessions, old(self).storage, mentee, session_id, rating)
                is None ==> ({
                let s = old(self).sessions.session_at(session_id);
                let payout = s.reward_amount - s.platform_fee;
                &&& mentor_at(old(self).mentors.profiles@, s.mentor).completed_sessions
                    < mentor_at(old(self).mentors.profiles@, s.mentor).total_sessions
                &&& mentor_at(old(self).mentors.profiles@, s.mentor).total_rating + rating
                    <= u32::MAX
                &&& mentor_at(old(self).mentors.profiles@, s.mentor).total_earned + payout
                    <= i128::MAX
                &&& old(self).mentors.leaderboard@.len() + 1 < u32::MAX
                &&& mentee_at(old(self).mentees.profiles@, mentee).completed_sessions < mentee_at(
                    old(self).mentees.profiles@,
                    mentee,
                ).total_sessions
                &&& mentee_at(old(self).mentees.profiles@, mentee).total_spent + s.reward_amount
                    <= i128::MAX
                &&& old(self).stats.stats.completed_sessions < u32::MAX
                &&& old(self).stats.stats.total_rewards_distributed + payout <= i128::MAX
                &&& old(self).stats.stats.total_fees_collected + s.platform_fee <= i128::MAX
            }),
        ensures
            final(self).wf(),
            final(self).contract_address == old(self).contract_address,
            match r {
                Err(e) => verify_err(
                    old(self).sessions,
                    old(self).storage,
                    mentee,
                    session_id,
                    rating,
                ) == Some(e) && *final(self) == *old(self),
                Ok(s) => {
                    let olds = old(self).sessions.session_at(session_id);
                    let payout = olds.reward_amount - olds.platform_fee;
                    let adm = old(self).storage.admin->0;
                    let custody = old(self).contract_address;
                    let upd = MentorshipSession {
                        mentor_rating: rating,
                        mentee_feedback: feedback,
                        status: SessionStatus::Completed,
                        completed_at: now,
                        ..olds
                    };
                    &&& verify_err(
                        old(self).sessions,
                        old(self).storage,
                        mentee,
                        session_id,
                        rating,
                    ) is None
                    &&& final(self).sessions.sessions@ == old(self).sessions.sessions@.update(
                        SessionManager::idx(session_id),
                        upd,
                    )
                    &&& session_like(s, upd)
                    &&& final(self).sessions.escrows@ == old(self).sessions.escrows@.update(
                        SessionManager::idx(session_id),
                        None,
                    )
                    &&& final(self).token.total() == old(self).token.total()
                    &&& forall|a: u64|
                        final(self).token.spec_balance(a) == old(self).token.spec_balance(a) + (
                        if a == olds.mentor {
                            payout as int
                        } else {
                            0
                        }) + (
                        if a == adm {
                            olds.platform_fee as int
                        } else {
                            0
                        }) - (
                        if a == custody {
                            olds.reward_amount as int
                        } else {
                            0
                        })
                    &&& final(self).mentors.profiles@ == old(self).mentors.profiles@.update(
                        mentor_idx(old(self).mentors.profiles@, olds.mentor),
                        profile_after_completion(
                            mentor_at(old(self).mentors.profiles@, olds.mentor),
                            rating,
                            payout as i128,
                        ),
                    )
                    &&& valid_board_update(
                        replace_or_append(
                            old(self).mentors.leaderboard@,
                            entry_for(
                                profile_after_completion(
                                    mentor_at(old(self).mentors.profiles@, olds.mentor),
                                    rating,
                                    payout as i128,
                                ),
                            ),
                        ),
                        final(self).mentors.leaderboard@,
                    )
                    &&& final(self).mentees.profiles@ == old(self).mentees.profiles@.update(
                        mentee_idx(old(self).mentees.profiles@, mentee),
                        MenteeProfile {
                            completed_sessions: (mentee_at(
                                old(self).mentees.profiles@,
                                mentee,
                            ).completed_sessions + 1) as u32,
                            total_spent: (mentee_at(old(self).mentees.profiles@, mentee).total_spent
                                + olds.reward_amount) as i128,
                            ..mentee_at(old(self).mentees.profiles@, mentee)
                        },
                    )
                    &&& final(self).stats.stats == (PlatformStats {
                        completed_sessions: (old(self).stats.stats.completed_sessions + 1) as u32,
                        total_rewards_distributed: (old(self).stats.stats.total_rewards_distributed + payout) as i128,
                        total_fees_collected: (old(self).stats.stats.total_fees_collected
                            + olds.platform_fee) as i128,
                        ..old(self).stats.stats
                    })
                    &&& final(self).storage == old(self).storage
                },
            },
    {
        let custody = self.contract_address;
        let ghost pre = *old(self);
        proof {
            if verify_err(pre.sessions, pre.storage, mentee, session_id, rating) is None {
                assert(pre.sessions.sessions@[SessionManager::idx(session_id)].mentee == mentee);
            }
        }
        let r = self.sessions.verify_completion(
            &self.storage,
            &mut self.token,
            &mut self.mentors,
            &mut self.mentees,
            &mut self.stats,
            custody,
            mentee,
            session_id,
            rating,
            feedback,
            now,
        );
        proof {
            if r is Ok {
                lemma_mentor_addresses_kept(pre.mentors.profiles@, self.mentors.profiles@);
                lemma_mentee_addresses_kept(pre.mentees.profiles@, self.mentees.profiles@);
                lemma_sessions_parties_kept(pre, *self);
            }
        }
        r
    }

    /// Either party contests an `Active` or `PendingVerification` session.
    pub fn dispute_session(&mut self, caller: u64, session_id: u64, reason: String) -> (r: Result<
        MentorshipSession,
        ContractError,
    >)
        requires
            old(self).wf(),
            dispute_err(old(self).sessions, caller, session_id) is None ==> old(self).stats.stats.disputed_sessions < u32::MAX,
        ensures
            final(self).wf(),
            final(self).contract_address == old(self).contract_address,
            match r {
                Err(e) => dispute_err(old(self).sessions, caller, session_id) == Some(e) && *final(self) == *old(self),
                Ok(s) => {
                    let upd = MentorshipSession {
                        status: SessionStatus::Disputed,
                        dispute_reason: reason,
                        ..old(self).sessions.session_at(session_id)
                    };
                    &&& dispute_err(old(self).sessions, caller, session_id) is None
                    &&& final(self).sessions.sessions@ == old(self).sessions.sessions@.update(
                        SessionManager::idx(session_id),
                        upd,
                    )
                    &&& session_like(s, upd)
                    &&& final(self).sessions.escrows == old(self).sessions.escrows
                    &&& final(self).stats.stats == (PlatformStats {
                        disputed_sessions: (old(self).stats.stats.disputed_sessions + 1) as u32,
                        ..old(self).stats.stats
                    })
                    &&& final(self).storage == old(self).storage
                    &&& final(self).token == old(self).token
                    &&& final(self).mentors == old(self).mentors
                    &&& final(self).mentees == old(self).mentees
                },
            },
    {
        let ghost pre = *old(self);
        let r = self.sessions.dispute(&mut self.stats, caller, session_id, reason);
        proof {
            if r is Ok {
                lemma_sessions_parties_kept(pre, *self);
            }
        }
        r
    }

    /// The administrator settles a `Disputed` session; every outcome
    /// disburses the whole escrowed reward and the session ends `Resolved`.
    pub fn resolve_dispute(
        &mut self,
        admin: u64,
        session_id: u64,
        outcome: DisputeOutcome,
        now: u64,
    ) -> (r: Result<MentorshipSession, ContractError>)
        requires
            old(self).wf(),
            (resolve_err(old(self).sessions, old(self).storage, admin, session_id) is None
                && outcome == DisputeOutcome::FavorMentor) ==> ({
                let s = old(self).sessions.session_at(session_id);
                let payout = s.reward_amount - s.platform_fee;
                &&& old(self).stats.stats.completed_sessions < u32::MAX
                &&& old(self).stats.stats.total_rewards_distributed + payout <= i128::MAX
                &&& old(self).stats.stats.total_fees_collected + s.platform_fee <= i128::MAX
            }),
        ensures
            final(self).wf(),
            final(self).contract_address == old(self).contract_address,
            match r {
                Err(e) => resolve_err(old(self).sessions, old(self).storage, admin, session_id)
                    == Some(e) && *final(self) == *old(self),
                Ok(s) => {
                    let olds = old(self).sessions.session_at(session_id);
                    let total = olds.reward_amount;
                    let fee = olds.platform_fee;
                    let custody = old(self).contract_address;
                    let upd = MentorshipSession {
                        status: SessionStatus::Resolved,
                        dispute_outcome: Some(outcome),
                        completed_at: now,
                        ..olds
                    };
                    &&& resolve_err(old(self).sessions, old(self).storage, admin, session_id)
                        is None
                    &&& final(self).sessions.sessions@ == old(self).sessions.sessions@.update(
                        SessionManager::idx(session_id),
                        upd,
                    )
                    &&& session_like(s, upd)
                    &&& final(self).sessions.escrows@ == old(self).sessions.escrows@.update(
                        SessionManager::idx(session_id),
                        None,
                    )
                    &&& final(self).token.total() == old(self).token.total()
                    &&& (match outcome {
                        DisputeOutcome::FavorMentor => forall|a: u64|
                            final(self).token.spec_balance(a) == old(self).token.spec_balance(a) + (
                            if a == olds.mentor {
                                (total - fee) as int
                            } else {
                                0
                            }) + (
                            if a == admin {
                                fee as int
                            } else {
                                0
                            }) - (
                            if a == custody {
                                total as int
                            } else {
                                0
                            }),
                        DisputeOutcome::FavorMentee => forall|a: u64|
                            final(self).token.spec_balance(a) == old(self).token.spec_balance(a) + (
                            if a == olds.mentee {
                                total as int
                            } else {
                                0
                            }) - (
                            if a == custody {
                                total as int
                            } else {
                                0
                            }),
                        DisputeOutcome::Split => forall|a: u64|
                            final(self).token.spec_balance(a) == old(self).token.spec_balance(a) + (
                            if a == olds.mentor {
                                (total / 2) as int
                            } else {
                                0
                            }) + (
                            if a == olds.mentee {
                                (total - total / 2) as int
                            } else {
                                0
                            }) - (
                            if a == custody {
                                total as int
                            } else {
                                0
                            }),
                    })
                    &&& (match outcome {
                        DisputeOutcome::FavorMentor => final(self).stats.stats == (PlatformStats {
                            completed_sessions: (old(self).stats.stats.completed_sessions
                                + 1) as u32,
                            total_rewards_distributed: (old(self).stats.stats.total_rewards_distributed + (total - fee)) as i128,
                            total_fees_collected: (old(self).stats.stats.total_fees_collected
                                + fee) as i128,
                            ..old(self).stats.stats
                        }),
                        _ => final(self).stats == old(self).stats,
                    })
                    &&& final(self).storage == old(self).storage
                    &&& final(self).mentors == old(self).mentors
                    &&& final(self).mentees == old(self).mentees
                },
            },
    {
        let custody = self.contract_address;
        let ghost pre = *old(self);
        let r = self.sessions.resolve_dispute(
            &self.storage,
            &mut self.token,
            &mut self.stats,
            custody,
            admin,
            session_id,
            outcome,
            now,
        );
        proof {
            if r is Ok {
                lemma_sessions_parties_kept(pre, *self);
            }
        }
        r
    }

    /// The mentee withdraws a still-`Pending` session and is refunded in
    /// full.
    pub fn cancel_session(&mut self, mentee: u64, session_id: u64) -> (r: Result<
        MentorshipSession,
        ContractError,
    >)
        requires
            old(self).wf(),
        ensures
            final(self).wf(),
            final(self).contract_address == old(self).contract_address,
            match r {
                Err(e) => cancel_err(old(self).sessions, old(self).storage, mentee, session_id)
                    == Some(e) && *final(self) == *old(self),
                Ok(s) => {
                    let olds = old(self).sessions.session_at(session_id);
                    let custody = old(self).contract_address;
                    let upd = MentorshipSession { status: SessionStatus::Cancelled, ..olds };
                    &&& cancel_err(old(self).sessions, old(self).storage, mentee, session_id)
                        is None
                    &&& final(self).sessions.sessions@ == old(self).sessions.sessions@.update(
                        SessionManager::idx(session_id),
                        upd,
                    )
                    &&& session_like(s, upd)
                    &&& final(self).sessions.escrows@ == old(self).sessions.escrows@.update(
                        SessionManager::idx(session_id),
                        None,
                    )
                    &&& final(self).token.total() == old(self).token.total()
                    &&& forall|a: u64|
                        final(self).token.spec_balance(a) == old(self).token.spec_balance(a) + (
                        if a == mentee {
                            olds.reward_amount as int
                        } else {
                            0
                        }) - (
                        if a == custody {
                            olds.reward_amount as int
                        } else {
                            0
                        })
                    &&& final(self).storage == old(self).storage
                    &&& final(self).mentors == old(self).mentors
                    &&& final(self).mentees == old(self).mentees
                    &&& final(self).stats == old(self).stats
                },
            },
    {
        let custody = self.contract_address;
        let ghost pre = *old(self);
        let r = self.sessions.cancel(&self.storage, &mut self.token, custody, mentee, session_id);
        proof {
            if r is Ok {
                lemma_sessions_parties_kept(pre, *self);
            }
        }
        r
    }

    /// A copy of the mentor's profile, if registered.
    pub fn get_mentor_profile(&self, mentor: u64) -> (r: Option<MentorProfile>)
        requires
            self.wf(),
        ensures
            match r {
                Some(p) => has_mentor(self.mentors.profiles@, mentor) && mentor_profile_like(
                    p,
                    mentor_at(self.mentors.profiles@, mentor),
                ),
                None => !has_mentor(self.mentors.profiles@, mentor),
            },
    {
        self.mentors.get(mentor)
    }

    /// A copy of the mentee's profile, if registered.
    pub fn get_mentee_profile(&self, mentee: u64) -> (r: Option<MenteeProfile>)
        requires
            self.wf(),
        ensures
            match r {
                Some(p) => has_mentee(self.mentees.profiles@, mentee) && p == mentee_at(
                    self.mentees.profiles@,
                    mentee,
                ),
                None => !has_mentee(self.mentees.profiles@, mentee),
            },
    {
        self.mentees.get(mentee)
    }

    /// A copy of the stored session, if the id names one.
    pub fn get_session(&self, session_id: u64) -> (r: Option<MentorshipSession>)
        requires
            self.wf(),
        ensures
            match r {
                Some(s) => self.sessions.has_session(session_id) && session_like(
                    s,
                    self.sessions.session_at(session_id),
                ),
                None => !self.sessions.has_session(session_id),
            },
    {
        self.sessions.get(session_id)
    }

    /// Ids of the mentor's sessions, oldest first.
    pub fn get_mentor_sessions(&self, mentor: u64) -> (r: Vec<u64>)
        ensures
            r@ == mentor_session_ids(self.sessions.sessions@, mentor),
    {
        self.sessions.get_mentor_sessions(mentor)
    }

    /// Ids of the mentee's sessions, oldest first.
    pub fn get_mentee_sessions(&self, mentee: u64) -> (r: Vec<u64>)
        ensures
            r@ == mentee_session_ids(self.sessions.sessions@, mentee),
    {
        self.sessions.get_mentee_sessions(mentee)
    }

    /// The first `limit` rows of the mentor leaderboard.
    pub fn get_top_mentors(&self, limit: u32) -> (r: Vec<MentorLeaderboardEntry>)
        requires
            self.wf(),
        ensures
            r@ == self.mentors.leaderboard@.subrange(
                0,
                if limit <= self.mentors.leaderboard@.len() {
                    limit as int
                } else {
                    self.mentors.leaderboard@.len() as int
                },
            ),
    {
        self.mentors.get_top_mentors(limit)
    }

    /// The aggregate platform counters.
    pub fn get_platform_stats(&self) -> (r: PlatformStats)
        ensures
            r == self.stats.stats,
    {
        self.stats.get_stats()
    }

    /// The administrator; fails while the platform is unconfigured.
    pub fn get_admin(&self) -> (r: Result<u64, ContractError>)
        ensures
            match r {
                Ok(a) => self.storage.admin == Some(a),
                Err(e) => (self.storage.admin is None) && e == ContractError::NotInitialized,
            },
    {
        self.storage.get_admin()
    }

    /// The reward-token address; fails while the platform is unconfigured.
    pub fn get_reward_token(&self) -> (r: Result<u64, ContractError>)
        ensures
            match r {
                Ok(t) => self.storage.reward_token == Some(t),
                Err(e) => (self.storage.reward_token is None) && e
                    == ContractError::NotInitialized,
            },
    {
        self.storage.get_reward_token()
    }

    /// Hands the administrator role to `new_admin`; only the current
    /// administrator may do so.
    pub fn transfer_admin(&mut self, caller: u64, new_admin: u64) -> (r: Result<
        (),
        ContractError,
    >)
        requires
            old(self).wf(),
        ensures
            final(self).wf(),
            r is Ok <==> old(self).storage.admin == Some(caller),
            r is Err ==> *final(self) == *old(self) && r->Err_0 == (
            if old(self).storage.admin is None {
                ContractError::NotInitialized
            } else {
                ContractError::Unauthorized
            }),
            r is Ok ==> *final(self) == (PeerLearningContract {
                storage: Storage { admin: Some(new_admin), ..old(self).storage },
                ..*old(self)
            }),
    {
        if let Err(e) = self.storage.require_admin(caller) {
            return Err(e);
        }
        self.storage.set_admin(new_admin);
        Ok(())
    }

    /// Sets a new platform fee for future sessions; only the administrator
    /// may do so, and the cap of 3000 basis points stands. Fees locked into
    /// existing sessions are unaffected.
    pub fn update_platform_fee(&mut self, caller: u64, new_fee_bps: u32) -> (r: Result<
        (),
        ContractError,
    >)
        requires
            old(self).wf(),
        ensures
            final(self).wf(),
            r is Ok <==> (old(self).storage.admin == Some(caller) && new_fee_bps <= MAX_FEE_BPS),
            r is Err ==> *final(self) == *old(self) && r->Err_0 == (
            if old(self).storage.admin is None {
                ContractError::NotInitialized
            } else if old(self).storage.admin != Some(caller) {
                ContractError::Unauthorized
            } else {
                ContractError::InvalidFeeRate
            }),
            r is Ok ==> *final(self) == (PeerLearningContract {
                storage: Storage {
                    platform_fee_bps: Some(new_fee_bps),
                    ..old(self).storage
                },
                ..*old(self)
            }),
    {
        if let Err(e) = self.storage.require_admin(caller) {
            return Err(e);
        }
        if new_fee_bps > MAX_FEE_BPS {
            return Err(ContractError::InvalidFeeRate);
        }
        self.storage.set_platform_fee_bps(new_fee_bps);
        Ok(())
    }
}

/// An in-place session update never changes who a session's parties are, so
/// the registration invariant carries over.
proof fn lemma_sessions_parties_kept(pre: PeerLearningContract, post: PeerLearningContract)
    requires
        pre.wf(),
        post.sessions.sessions@.len() == pre.sessions.sessions@.len(),
        forall|i: int|
            0 <= i < pre.sessions.sessions@.len() ==> (#[trigger] post.sessions.sessions@[i]).mentor
                == pre.sessions.sessions@[i].mentor && post.sessions.sessions@[i].mentee
                == pre.sessions.sessions@[i].mentee,
        post.mentors.profiles@.len() == pre.mentors.profiles@.len(),
        forall|j: int|
            0 <= j < pre.mentors.profiles@.len() ==> (#[trigger] post.mentors.profiles@[j]).address
                == pre.mentors.profiles@[j].address,
        post.mentees.profiles@.len() == pre.mentees.profiles@.len(),
        forall|j: int|
            0 <= j < pre.mentees.profiles@.len() ==> (#[trigger] post.mentees.profiles@[j]).address
                == pre.mentees.profiles@[j].address,
    ensures
        forall|i: int|
            0 <= i < post.sessions.sessions@.len() ==> has_mentor(
                post.mentors.profiles@,
                (#[trigger] post.sessions.sessions@[i]).mentor,
            ) && has_mentee(post.mentees.profiles@, post.sessions.sessions@[i].mentee),
{
    lemma_mentor_addresses_kept(pre.mentors.profiles@, post.mentors.profiles@);
    lemma_mentee_addresses_kept(pre.mentees.profiles@, post.mentees.profiles@);
    assert forall|i: int| 0 <= i < post.sessions.sessions@.len() implies has_mentor(
        post.mentors.profiles@,
        (#[trigger] post.sessions.sessions@[i]).mentor,
    ) && has_mentee(post.mentees.profiles@, post.sessions.sessions@[i].mentee) by {
        assert(has_mentor(pre.mentors.profiles@, pre.sessions.sessions@[i].mentor));
        assert(has_mentee(pre.mentees.profiles@, pre.sessions.sessions@[i].mentee));
    }
}

/// Two profile lists with the same addresses index for index register the
/// same mentors.
proof fn lemma_mentor_addresses_kept(s1: Seq<MentorProfile>, s2: Seq<MentorProfile>)
    requires
        s1.len() == s2.len(),
        forall|j: int| 0 <= j < s1.len() ==> s1[j].address == (#[trigger] s2[j]).address,
    ensures
        forall|a: u64| has_mentor(s1, a) <==> has_mentor(s2, a),
{
    assert forall|a: u64| has_mentor(s1, a) <==> has_mentor(s2, a) by {
        if has_mentor(s1, a) {
            let w = choose|w: int| 0 <= w < s1.len() && s1[w].address == a;
            assert(s2[w].address == a);
        }
        if has_mentor(s2, a) {
            let w = choose|w: int| 0 <= w < s2.len() && s2[w].address == a;
            assert(s1[w].address == a);
        }
    }
}

/// Two profile lists with the same addresses index for index register the
/// same mentees.
proof fn lemma_mentee_addresses_kept(s1: Seq<MenteeProfile>, s2: Seq<MenteeProfile>)
    requires
        s1.len() == s2.len(),
        forall|j: int| 0 <= j < s1.len() ==> s1[j].address == (#[trigger] s2[j]).address,
    ensures
        forall|a: u64| has_mentee(s1, a) <==> has_mentee(s2, a),
{
    assert forall|a: u64| has_mentee(s1, a) <==> has_mentee(s2, a) by {
        if has_mentee(s1, a) {
            let w = choose|w: int| 0 <= w < s1.len() && s1[w].address == a;
            assert(s2[w].address == a);
        }
        if has_mentee(s2, a) {
            let w = choose|w: int| 0 <= w < s2.len() && s2[w].address == a;
            assert(s1[w].address == a);
        }
    }
}

} // verus!
