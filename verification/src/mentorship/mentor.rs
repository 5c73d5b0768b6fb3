//! The mentor registry and the reputation-ranked leaderboard.
//!
//! On every completion the mentor's reputation score is recomputed from the
//! full rating history, the mentor's leaderboard row is replaced (or
//! appended), and the whole board is re-sorted by descending score with a
//! stable order — rows with equal scores keep their previous relative
//! order — and re-ranked from 1.

use vstd::pervasive::VecAdditionalExecFns;
use vstd::prelude::*;

use crate::mentorship::errors::ContractError;
use crate::mentorship::types::{
    mentor_profile_like, MentorLeaderboardEntry, MentorProfile, SkillCategory,
};

verus! {

pub open spec fn has_mentor(s: Seq<MentorProfile>, addr: u64) -> bool {
    exists|i: int| 0 <= i < s.len() && s[i].address == addr
}

/// Index of the (unique) profile registered for `addr`.
pub open spec fn mentor_idx(s: Seq<MentorProfile>, addr: u64) -> int {
    choose|i: int| 0 <= i < s.len() && s[i].address == addr
}

/// The profile registered for `addr`.
pub open spec fn mentor_at(s: Seq<MentorProfile>, addr: u64) -> MentorProfile {
    s[mentor_idx(s, addr)]
}

pub open spec fn mentors_unique(s: Seq<MentorProfile>) -> bool {
    forall|i: int, j: int| 0 <= i < j < s.len() ==> s[i].address != s[j].address
}

/// With unique addresses, an index holding `addr` is the index of `addr`.
proof fn lemma_mentor_found(s: Seq<MentorProfile>, addr: u64, i: int)
    requires
        mentors_unique(s),
        0 <= i < s.len(),
        s[i].address == addr,
    ensures
        has_mentor(s, addr),
        mentor_idx(s, addr) == i,
{
    assert(has_mentor(s, addr));
    let j = mentor_idx(s, addr);
    if i < j {
        assert(s[i].address != s[j].address);
    }
    if j < i {
        assert(s[j].address != s[i].address);
    }
}

pub open spec fn board_has(s: Seq<MentorLeaderboardEntry>, addr: u64) -> bool {
    exists|i: int| 0 <= i < s.len() && s[i].mentor == addr
}

/// Index of the (unique) board row of `addr`.
pub open spec fn board_idx(s: Seq<MentorLeaderboardEntry>, addr: u64) -> int {
    choose|i: int| 0 <= i < s.len() && s[i].mentor == addr
}

pub open spec fn board_unique(s: Seq<MentorLeaderboardEntry>) -> bool {
    forall|i: int, j: int| 0 <= i < j < s.len() ==> s[i].mentor != s[j].mentor
}

proof fn lemma_board_found(s: Seq<MentorLeaderboardEntry>, addr: u64, i: int)
    requires
        board_unique(s),
        0 <= i < s.len(),
        s[i].mentor == addr,
    ensures
        board_has(s, addr),
        board_idx(s, addr) == i,
{
    assert(board_has(s, addr));
    let j = board_idx(s, addr);
    if i < j {
        assert(s[i].mentor != s[j].mentor);
    }
    if j < i {
        assert(s[j].mentor != s[i].mentor);
    }
}

/// Scores never increase along the board.
pub open spec fn sorted_desc(s: Seq<MentorLeaderboardEntry>) -> bool {
    forall|i: int, j: int|
        0 <= i < j < s.len() ==> s[i].reputation_score >= s[j].reputation_score
}

/// Rank is the 1-based position in the board.
pub open spec fn ranked(s: Seq<MentorLeaderboardEntry>) -> bool {
    forall|i: int| 0 <= i < s.len() ==> (#[trigger] s[i]).rank == i + 1
}

/// `e` with its rank replaced.
pub open spec fn with_rank(e: MentorLeaderboardEntry, r: int) -> MentorLeaderboardEntry {
    MentorLeaderboardEntry { rank: r as u32, ..e }
}

/// The sort's input: the board with `addr`'s row replaced in place, or the
/// new row appended if `addr` had none.
pub open spec fn replace_or_append(
    s: Seq<MentorLeaderboardEntry>,
    e: MentorLeaderboardEntry,
) -> Seq<MentorLeaderboardEntry> {
    if board_has(s, e.mentor) {
        s.update(board_idx(s, e.mentor), e)
    } else {
        s.push(e)
    }
}

/// `out` holds exactly the rows of `inp`, each with its rank set to its
/// 1-based position in `out`.
pub open spec fn reranked_same_entries(
    inp: Seq<MentorLeaderboardEntry>,
    out: Seq<MentorLeaderboardEntry>,
) -> bool {
    &&& out.len() == inp.len()
    &&& board_unique(out)
    &&& forall|i: int|
        #![trigger out[i]]
        0 <= i < out.len() ==> board_has(inp, out[i].mentor) && out[i] == with_rank(
            inp[board_idx(inp, out[i].mentor)],
            i + 1,
        )
    &&& forall|k: int| 0 <= k < inp.len() ==> board_has(out, (#[trigger] inp[k]).mentor)
}

/// Rows with equal scores appear in `out` in the order they had in `inp`:
/// the sort is stable.
pub open spec fn stable_wrt(
    inp: Seq<MentorLeaderboardEntry>,
    out: Seq<MentorLeaderboardEntry>,
) -> bool {
    forall|i: int, j: int|
        #![trigger out[i], out[j]]
        0 <= i < j < out.len() && out[i].reputation_score == out[j].reputation_score
            ==> board_idx(inp, out[i].mentor) < board_idx(inp, out[j].mentor)
}

/// Full contract of one leaderboard maintenance pass on input `inp`: the
/// persisted board is `inp` stably sorted by descending score and re-ranked.
pub open spec fn valid_board_update(
    inp: Seq<MentorLeaderboardEntry>,
    out: Seq<MentorLeaderboardEntry>,
) -> bool {
    &&& sorted_desc(out)
    &&& ranked(out)
    &&& reranked_same_entries(inp, out)
    &&& stable_wrt(inp, out)
}

/// Invariant of the insertion sort after `p` rows of `inp` are placed.
spec fn sort_inv(
    inp: Seq<MentorLeaderboardEntry>,
    out: Seq<MentorLeaderboardEntry>,
    p: int,
) -> bool {
    &&& out.len() == p
    &&& 0 <= p <= inp.len()
    &&& sorted_desc(out)
    &&& board_unique(out)
    &&& forall|i: int| 0 <= i < p ==> board_has(out, (#[trigger] inp[i]).mentor)
    &&& forall|i: int|
        #![trigger out[i]]
        0 <= i < out.len() ==> board_has(inp, out[i].mentor) && 0 <= board_idx(
            inp,
            out[i].mentor,
        ) < p && out[i] == inp[board_idx(inp, out[i].mentor)]
    &&& stable_wrt(inp, out)
}

/// Placing `inp[p]` behind every row with an equal or higher score keeps the
/// sort invariant: every equal-scored row already placed came earlier in
/// `inp`, so the order is stable.
proof fn lemma_sort_insert(
    inp: Seq<MentorLeaderboardEntry>,
    out: Seq<MentorLeaderboardEntry>,
    p: int,
    q: int,
)
    requires
        board_unique(inp),
        sort_inv(inp, out, p),
        p < inp.len(),
        0 <= q <= out.len(),
        forall|i: int|
            0 <= i < q ==> (#[trigger] out[i]).reputation_score >= inp[p].reputation_score,
        q == out.len() || out[q].reputation_score < inp[p].reputation_score,
    ensures
        sort_inv(inp, out.insert(q, inp[p]), p + 1),
{
    let cur = inp[p];
    let t = out.insert(q, cur);
    out.insert_ensures(q, cur);
    lemma_board_found(inp, cur.mentor, p);
    assert forall|k: int| 0 <= k < out.len() implies out[k].mentor != cur.mentor by {
        if out[k].mentor == cur.mentor {
            assert(board_idx(inp, out[k].mentor) < p);
            assert(out[k] == inp[board_idx(inp, out[k].mentor)]);
            lemma_board_found(inp, cur.mentor, board_idx(inp, out[k].mentor));
        }
    }
    assert(sorted_desc(t)) by {
        assert forall|i: int, j: int| 0 <= i < j < t.len() implies t[i].reputation_score
            >= t[j].reputation_score by {
            if i < q && j < q {
            } else if i == q && j > q {
                assert(t[j] == out[j - 1]);
                assert(out[q].reputation_score < cur.reputation_score);
                assert(out[q].reputation_score >= out[j - 1].reputation_score);
            } else if i < q && j == q {
                assert(out[i].reputation_score >= cur.reputation_score);
            } else if i < q && j > q {
                assert(t[i] == out[i] && t[j] == out[j - 1]);
            } else if i > q && j > q {
                assert(t[i] == out[i - 1] && t[j] == out[j - 1]);
            }
        }
    }
    assert(board_unique(t)) by {
        assert forall|i: int, j: int| 0 <= i < j < t.len() implies t[i].mentor != t[j].mentor by {
            if i != q && j != q {
            } else if i == q {
                assert(t[j] == out[j - 1]);
            } else {
                assert(t[i] == out[i]);
            }
        }
    }
    assert forall|i: int| 0 <= i < p + 1 implies board_has(t, (#[trigger] inp[i]).mentor) by {
        if i == p {
            assert(t[q] == cur);
        } else {
            let k = choose|k: int| 0 <= k < out.len() && out[k].mentor == inp[i].mentor;
            if k < q {
                assert(t[k] == out[k]);
            } else {
                assert(t[k + 1] == out[k]);
            }
        }
    }
    assert forall|i: int|
        #![trigger t[i]]
        0 <= i < t.len() implies board_has(inp, t[i].mentor) && 0 <= board_idx(inp, t[i].mentor)
        < p + 1 && t[i] == inp[board_idx(inp, t[i].mentor)] by {
        if i == q {
            assert(t[i] == cur);
        } else if i < q {
            assert(t[i] == out[i]);
        } else {
            assert(t[i] == out[i - 1]);
        }
    }
    assert(stable_wrt(inp, t)) by {
        assert forall|i: int, j: int|
            #![trigger t[i], t[j]]
            0 <= i < j < t.len() && t[i].reputation_score == t[j].reputation_score implies
            board_idx(inp, t[i].mentor) < board_idx(inp, t[j].mentor) by {
            if i != q && j != q {
                let a = if i < q { i } else { i - 1 };
                let b = if j < q { j } else { j - 1 };
                assert(t[i] == out[a] && t[j] == out[b]);
            } else if i == q {
                // Everything after the insertion point scores strictly less.
                assert(t[j] == out[j - 1]);
                assert(out[q].reputation_score >= out[j - 1].reputation_score);
            } else {
                // A previously placed row with the same score came from an
                // earlier input position than `p`.
                assert(t[i] == out[i]);
                assert(board_idx(inp, out[i].mentor) < p);
                assert(board_idx(inp, t[j].mentor) == p);
            }
        }
    }
}

/// The leaderboard row derived from a profile, before ranking.
pub open spec fn entry_for(p: MentorProfile) -> MentorLeaderboardEntry {
    MentorLeaderboardEntry {
        mentor: p.address,
        reputation_score: p.reputation_score,
        completed_sessions: p.completed_sessions,
        average_rating: if p.rating_count > 0 {
            (p.total_rating as int / p.rating_count as int) as u32
        } else {
            0
        },
        total_earned: p.total_earned,
        rank: 0,
    }
}

/// The reputation formula: average rating weighted at 60%, completion rate
/// weighted at 40%, in integer arithmetic. 0 without any rated completion.
pub open spec fn spec_reputation(p: MentorProfile) -> int {
    if p.rating_count == 0 {
        0
    } else {
        let avg = p.total_rating as int / p.rating_count as int;
        let rate = if p.total_sessions > 0 {
            (p.completed_sessions as int * 100) / p.total_sessions as int
        } else {
            0
        };
        avg * 60 / 5 + rate * 40 / 100
    }
}

/// `p` after one completion with `rating` and `earned`: counters bumped and
/// the reputation score recomputed from them.
pub open spec fn profile_after_completion(
    p: MentorProfile,
    rating: u32,
    earned: i128,
) -> MentorProfile {
    let q = MentorProfile {
        completed_sessions: (p.completed_sessions + 1) as u32,
        total_rating: (p.total_rating + rating) as u32,
        rating_count: (p.rating_count + 1) as u32,
        total_earned: (p.total_earned + earned) as i128,
        ..p
    };
    MentorProfile { reputation_score: spec_reputation(q) as u32, ..q }
}

/// Tracks every registered mentor and the persisted leaderboard.
pub struct MentorManager {
    pub profiles: Vec<MentorProfile>,
    pub leaderboard: Vec<MentorLeaderboardEntry>,
}

impl MentorManager {
    pub open spec fn wf(self) -> bool {
        &&& mentors_unique(self.profiles@)
        &&& forall|i: int| 0 <= i < self.profiles@.len() ==> (#[trigger] self.profiles@[i]).wf()
        &&& board_unique(self.leaderboard@)
        &&& sorted_desc(self.leaderboard@)
        &&& ranked(self.leaderboard@)
        &&& self.leaderboard@.len() < u32::MAX
    }

    pub fn new() -> (r: MentorManager)
        ensures
            r.wf(),
            r.profiles@.len() == 0,
            r.leaderboard@.len() == 0,
    {
        MentorManager { profiles: Vec::new(), leaderboard: Vec::new() }
    }

    fn find(&self, addr: u64) -> (r: Option<usize>)
        requires
            mentors_unique(self.profiles@),
        ensures
            match r {
                Some(i) => has_mentor(self.profiles@, addr) && i == mentor_idx(
                    self.profiles@,
                    addr,
                ) && i < self.profiles@.len(),
                None => !has_mentor(self.profiles@, addr),
            },
    {
        let mut k: usize = 0;
        while k < self.profiles.len()
            invariant
                k <= self.profiles@.len(),
                mentors_unique(self.profiles@),
                forall|j: int| 0 <= j < k ==> self.profiles@[j].address != addr,
            decreases self.profiles@.len() - k,
        {
            if self.profiles[k].address == addr {
                proof {
                    lemma_mentor_found(self.profiles@, addr, k as int);
                }
                return Some(k);
            }
            k = k + 1;
        }
        None
    }

    fn find_board(&self, addr: u64) -> (r: Option<usize>)
        requires
            board_unique(self.leaderboard@),
        ensures
            match r {
                Some(i) => board_has(self.leaderboard@, addr) && i == board_idx(
                    self.leaderboard@,
                    addr,
                ) && i < self.leaderboard@.len(),
                None => !board_has(self.leaderboard@, addr),
            },
    {
        let mut k: usize = 0;
        while k < self.leaderboard.len()
            invariant
                k <= self.leaderboard@.len(),
                board_unique(self.leaderboard@),
                forall|j: int| 0 <= j < k ==> self.leaderboard@[j].mentor != addr,
            decreases self.leaderboard@.len() - k,
        {
            if self.leaderboard[k].mentor == addr {
                proof {
                    lemma_board_found(self.leaderboard@, addr, k as int);
                }
                return Some(k);
            }
            k = k + 1;
        }
        None
    }

    /// Registers `caller` with an offered skill set and a positive hourly
    /// rate; rejects a second registration of the same address.
    pub fn register(
        &mut self,
        caller: u64,
        skills: Vec<SkillCategory>,
        hourly_rate: i128,
        now: u64,
    ) -> (r: Result<MentorProfile, ContractError>)
        requires
            old(self).wf(),
        ensures
            final(self).wf(),
            r is Err <==> (has_mentor(old(self).profiles@, caller) || hourly_rate <= 0),
            r is Err ==> *final(self) == *old(self) && r == Err::<MentorProfile, ContractError>(
                if has_mentor(old(self).profiles@, caller) {
                    ContractError::AlreadyRegistered
                } else {
                    ContractError::InvalidRewardAmount
                },
            ),
            r is Ok ==> final(self).profiles@ == old(self).profiles@.push(
                MentorProfile {
                    address: caller,
                    skills: skills,
                    hourly_rate: hourly_rate,
                    total_sessions: 0,
                    completed_sessions: 0,
                    total_rating: 0,
                    rating_count: 0,
                    reputation_score: 0,
                    total_earned: 0,
                    registered_at: now,
                    is_active: true,
                },
            ) && mentor_profile_like(r->Ok_0, final(self).profiles@.last()),
            final(self).leaderboard == old(self).leaderboard,
    {
        if self.find(caller).is_some() {
            return Err(ContractError::AlreadyRegistered);
        }
        if hourly_rate <= 0 {
            return Err(ContractError::InvalidRewardAmount);
        }
        let profile = MentorProfile {
            address: caller,
            skills,
            hourly_rate,
            total_sessions: 0,
            completed_sessions: 0,
            total_rating: 0,
            rating_count: 0,
            reputation_score: 0,
            total_earned: 0,
            registered_at: now,
            is_active: true,
        };
        let snap = profile.snapshot();
        self.profiles.push(profile);
        Ok(snap)
    }

    pub fn get(&self, mentor: u64) -> (r: Option<MentorProfile>)
        requires
            self.wf(),
        ensures
            match r {
                Some(p) => has_mentor(self.profiles@, mentor) && mentor_profile_like(
                    p,
                    mentor_at(self.profiles@, mentor),
                ),
                None => !has_mentor(self.profiles@, mentor),
            },
    {
        match self.find(mentor) {
            Some(i) => Some(self.profiles[i].snapshot()),
            None => None,
        }
    }

    /// A copy of `mentor`'s profile, provided it exists and is active.
    pub fn require_active(&self, mentor: u64) -> (r: Result<MentorProfile, ContractError>)
        requires
            self.wf(),
        ensures
            r is Ok <==> has_mentor(self.profiles@, mentor) && mentor_at(
                self.profiles@,
                mentor,
            ).is_active,
            r is Ok ==> mentor_profile_like(r->Ok_0, mentor_at(self.profiles@, mentor)),
            r is Err ==> r->Err_0 == (if !has_mentor(self.profiles@, mentor) {
                ContractError::MentorNotFound
            } else {
                ContractError::MentorNotActive
            }),
    {
        match self.find(mentor) {
            Some(i) => {
                if self.profiles[i].is_active {
                    Ok(self.profiles[i].snapshot())
                } else {
                    Err(ContractError::MentorNotActive)
                }
            },
            None => Err(ContractError::MentorNotFound),
        }
    }

    /// Switches the mentor's active flag.
    pub fn set_active(&mut self, mentor: u64, active: bool) -> (r: Result<(), ContractError>)
        requires
            old(self).wf(),
        ensures
            final(self).wf(),
            r is Ok <==> has_mentor(old(self).profiles@, mentor),
            r is Err ==> *final(self) == *old(self) && r == Err::<(), ContractError>(
                ContractError::MentorNotFound,
            ),
            r is Ok ==> final(self).profiles@ == old(self).profiles@.update(
                mentor_idx(old(self).profiles@, mentor),
                MentorProfile { is_active: active, ..mentor_at(old(self).profiles@, mentor) },
            ),
            final(self).leaderboard == old(self).leaderboard,
    {
        match self.find(mentor) {
            Some(i) => {
                let mut p = placeholder_profile();
                self.profiles.set_and_swap(i, &mut p);
                p.is_active = active;
                self.profiles.set(i, p);
                proof {
                    assert(self.profiles@ =~= old(self).profiles@.update(
                        i as int,
                        MentorProfile {
                            is_active: active,
                            ..mentor_at(old(self).profiles@, mentor)
                        },
                    ));
                }
                Ok(())
            },
            None => Err(ContractError::MentorNotFound),
        }
    }

    /// Counts one more session accepted by `mentor`.
    pub fn record_session_accepted(&mut self, mentor: u64) -> (r: Result<(), ContractError>)
        requires
            old(self).wf(),
            has_mentor(old(self).profiles@, mentor) ==> mentor_at(
                old(self).profiles@,
                mentor,
            ).total_sessions < u32::MAX,
        ensures
            final(self).wf(),
            r is Ok <==> has_mentor(old(self).profiles@, mentor),
            r is Err ==> *final(self) == *old(self) && r == Err::<(), ContractError>(
                ContractError::MentorNotFound,
            ),
            r is Ok ==> final(self).profiles@ == old(self).profiles@.update(
                mentor_idx(old(self).profiles@, mentor),
                MentorProfile {
                    total_sessions: (mentor_at(old(self).profiles@, mentor).total_sessions
                        + 1) as u32,
                    ..mentor_at(old(self).profiles@, mentor)
                },
            ),
            final(self).leaderboard == old(self).leaderboard,
    {
        match self.find(mentor) {
            Some(i) => {
                let mut p = placeholder_profile();
                self.profiles.set_and_swap(i, &mut p);
                p.total_sessions = p.total_sessions + 1;
                self.profiles.set(i, p);
                proof {
                    assert(self.profiles@ =~= old(self).profiles@.update(
                        i as int,
                        MentorProfile {
                            total_sessions: (mentor_at(old(self).profiles@, mentor).total_sessions
                                + 1) as u32,
                            ..mentor_at(old(self).profiles@, mentor)
                        },
                    ));
                }
                Ok(())
            },
            None => Err(ContractError::MentorNotFound),
        }
    }

    /// The derived reputation score of a profile.
    pub fn compute_reputation(profile: &MentorProfile) -> (r: u32)
        requires
            profile.wf(),
        ensures
            r == spec_reputation(*profile),
            r <= 100,
    {
        if profile.rating_count == 0 {
            return 0;
        }
        let avg_rating = profile.total_rating / profile.rating_count;
        proof {
            assert(profile.total_rating as int / profile.rating_count as int <= 5) by (nonlinear_arith)
                requires
                    profile.rating_count > 0,
                    profile.total_rating <= 5 * profile.rating_count,
            ;
        }
        let completion_rate: u32 = if profile.total_sessions > 0 {
            proof {
                assert((profile.completed_sessions as int * 100) / profile.total_sessions as int
                    <= 100) by (nonlinear_arith)
                    requires
                        profile.total_sessions > 0,
                        profile.completed_sessions <= profile.total_sessions,
                ;
            }
            (((profile.completed_sessions as u64) * 100) / (profile.total_sessions as u64)) as u32
        } else {
            0
        };
        (avg_rating * 60 / 5) + (completion_rate * 40 / 100)
    }

    /// The first `limit` rows of the leaderboard, or all of it when fewer
    /// exist.
    pub fn get_top_mentors(&self, limit: u32) -> (r: Vec<MentorLeaderboardEntry>)
        requires
            self.wf(),
        ensures
            r@ == self.leaderboard@.subrange(
                0,
                if limit <= self.leaderboard@.len() {
                    limit as int
                } else {
                    self.leaderboard@.len() as int
                },
            ),
    {
        let cap: usize = if (limit as usize) < self.leaderboard.len() {
            limit as usize
        } else {
            self.leaderboard.len()
        };
        let mut r: Vec<MentorLeaderboardEntry> = Vec::new();
        let mut k: usize = 0;
        while k < cap
            invariant
                k <= cap <= self.leaderboard@.len(),
                r@ == self.leaderboard@.subrange(0, k as int),
            decreases cap - k,
        {
            r.push(self.leaderboard[k]);
            proof {
                assert(r@ =~= self.leaderboard@.subrange(0, k + 1 as int));
            }
            k = k + 1;
        }
        proof {
            assert(r@ =~= self.leaderboard@.subrange(
                0,
                if limit <= self.leaderboard@.len() {
                    limit as int
                } else {
                    self.leaderboard@.len() as int
                },
            ));
        }
        r
    }

    /// Counts one completed session for `mentor`, recomputes the reputation
    /// score and runs a full leaderboard maintenance pass.
    pub fn record_completion(&mut self, mentor: u64, rating: u32, earned: i128) -> (r: Result<
        (),
        ContractError,
    >)
        requires
            old(self).wf(),
            1 <= rating <= 5,
            earned >= 0,
            has_mentor(old(self).profiles@, mentor) ==> {
                let p = mentor_at(old(self).profiles@, mentor);
                &&& p.completed_sessions < p.total_sessions
                &&& p.total_rating + rating <= u32::MAX
                &&& p.total_earned + earned <= i128::MAX
            },
            old(self).leaderboard@.len() + 1 < u32::MAX,
        ensures
            final(self).wf(),
            r is Ok <==> has_mentor(old(self).profiles@, mentor),
            r is Err ==> *final(self) == *old(self) && r == Err::<(), ContractError>(
                ContractError::MentorNotFound,
            ),
            r is Ok ==> final(self).profiles@ == old(self).profiles@.update(
                mentor_idx(old(self).profiles@, mentor),
                profile_after_completion(mentor_at(old(self).profiles@, mentor), rating, earned),
            ),
            r is Ok ==> valid_board_update(
                replace_or_append(
                    old(self).leaderboard@,
                    entry_for(
                        profile_after_completion(
                            mentor_at(old(self).profiles@, mentor),
                            rating,
                            earned,
                        ),
                    ),
                ),
                final(self).leaderboard@,
            ),
    {
        let i = match self.find(mentor) {
            Some(i) => i,
            None => {
                return Err(ContractError::MentorNotFound);
            },
        };
        let mut p = placeholder_profile();
        self.profiles.set_and_swap(i, &mut p);
        p.completed_sessions = p.completed_sessions + 1;
        p.total_rating = p.total_rating + rating;
        p.rating_count = p.rating_count + 1;
        p.total_earned = p.total_earned + earned;
        p.reputation_score = Self::compute_reputation(&p);
        proof {
            assert(p == profile_after_completion(
                mentor_at(old(self).profiles@, mentor),
                rating,
                earned,
            ));
        }
        self.update_leaderboard(mentor, &p);
        self.profiles.set(i, p);
        proof {
            assert(self.profiles@ =~= old(self).profiles@.update(
                i as int,
                profile_after_completion(mentor_at(old(self).profiles@, mentor), rating, earned),
            ));
        }
        Ok(())
    }

    /// One full maintenance pass: replace or append `mentor`'s row, stably
    /// re-sort the whole board by descending score, re-rank from 1, persist.
    fn update_leaderboard(&mut self, mentor: u64, profile: &MentorProfile)
        requires
            board_unique(old(self).leaderboard@),
            old(self).leaderboard@.len() + 1 < u32::MAX,
            profile.address == mentor,
        ensures
            final(self).profiles == old(self).profiles,
            valid_board_update(
                replace_or_append(old(self).leaderboard@, entry_for(*profile)),
                final(self).leaderboard@,
            ),
            final(self).leaderboard@.len() < u32::MAX,
    {
        let avg_rating: u32 = if profile.rating_count > 0 {
            profile.total_rating / profile.rating_count
        } else {
            0
        };
        let new_entry = MentorLeaderboardEntry {
            mentor,
            reputation_score: profile.reputation_score,
            completed_sessions: profile.completed_sessions,
            average_rating: avg_rating,
            total_earned: profile.total_earned,
            rank: 0,
        };
        proof {
            assert(new_entry == entry_for(*profile));
        }
        // Replace the mentor's row in place, or append a new one.
        match self.find_board(mentor) {
            Some(k) => {
                self.leaderboard.set(k, new_entry);
            },
            None => {
                self.leaderboard.push(new_entry);
            },
        }
        let ghost inp = self.leaderboard@;
        proof {
            let prev = old(self).leaderboard@;
            assert(inp == replace_or_append(prev, entry_for(*profile)));
            assert(board_unique(inp)) by {
                assert forall|a: int, b: int| 0 <= a < b < inp.len() implies inp[a].mentor
                    != inp[b].mentor by {
                    if board_has(prev, mentor) {
                        let x = board_idx(prev, mentor);
                        if a == x {
                            assert(inp[a].mentor == prev[a].mentor);
                        } else if b == x {
                            assert(inp[b].mentor == prev[b].mentor);
                        }
                    } else {
                        if b == prev.len() {
                            assert(inp[a] == prev[a] && inp[b].mentor == mentor);
                        }
                    }
                }
            }
        }
        // Stable insertion sort by descending score into a fresh board.
        let n = self.leaderboard.len();
        let mut out: Vec<MentorLeaderboardEntry> = Vec::new();
        let mut p: usize = 0;
        while p < n
            invariant
                n == inp.len(),
                self.leaderboard@ == inp,
                board_unique(inp),
                sort_inv(inp, out@, p as int),
            decreases n - p,
        {
            let cur = self.leaderboard[p];
            let mut q: usize = 0;
            while q < out.len() && out[q].reputation_score >= cur.reputation_score
                invariant
                    q <= out@.len(),
                    forall|i: int|
                        0 <= i < q ==> (#[trigger] out@[i]).reputation_score
                            >= cur.reputation_score,
                decreases out@.len() - q,
            {
                q = q + 1;
            }
            proof {
                lemma_sort_insert(inp, out@, p as int, q as int);
            }
            out.insert(q, cur);
            p = p + 1;
        }
        // Assign 1-based ranks by final position.
        let ghost base = out@;
        let len = out.len();
        proof {
            assert(len < u32::MAX);
        }
        let mut i: usize = 0;
        while i < len
            invariant
                len == base.len() == out@.len(),
                len < u32::MAX,
                forall|j: int| 0 <= j < i ==> out@[j] == with_rank(base[j], j + 1),
                forall|j: int| i <= j < len ==> out@[j] == base[j],
            decreases len - i,
        {
            let mut e = out[i];
            e.rank = (i as u32) + 1;
            out.set(i, e);
            i = i + 1;
        }
        self.leaderboard = out;
        proof {
            let fin = self.leaderboard@;
            assert(sort_inv(inp, base, inp.len() as int));
            assert forall|i2: int| #![trigger fin[i2]] 0 <= i2 < fin.len() implies board_has(
                inp,
                fin[i2].mentor,
            ) && fin[i2] == with_rank(inp[board_idx(inp, fin[i2].mentor)], i2 + 1) by {
                assert(fin[i2] == with_rank(base[i2], i2 + 1));
                assert(base[i2] == inp[board_idx(inp, base[i2].mentor)]);
            }
            assert forall|k2: int| 0 <= k2 < inp.len() implies board_has(
                fin,
                (#[trigger] inp[k2]).mentor,
            ) by {
                let w = choose|w: int| 0 <= w < base.len() && base[w].mentor == inp[k2].mentor;
                assert(fin[w].mentor == base[w].mentor);
            }
            assert(board_unique(fin)) by {
                assert forall|a: int, b: int| 0 <= a < b < fin.len() implies fin[a].mentor
                    != fin[b].mentor by {
                    assert(fin[a].mentor == base[a].mentor && fin[b].mentor == base[b].mentor);
                }
            }
            assert(sorted_desc(fin)) by {
                assert forall|a: int, b: int| 0 <= a < b < fin.len() implies
                    fin[a].reputation_score >= fin[b].reputation_score by {
                    assert(fin[a].reputation_score == base[a].reputation_score
                        && fin[b].reputation_score == base[b].reputation_score);
                }
            }
            assert(stable_wrt(inp, fin)) by {
                assert forall|a: int, b: int|
                    #![trigger fin[a], fin[b]]
                    0 <= a < b < fin.len() && fin[a].reputation_score == fin[b].reputation_score
                    implies board_idx(inp, fin[a].mentor) < board_idx(inp, fin[b].mentor) by {
                    assert(fin[a].mentor == base[a].mentor && fin[b].mentor == base[b].mentor);
                    assert(fin[a].reputation_score == base[a].reputation_score
                        && fin[b].reputation_score == base[b].reputation_score);
                }
            }
        }
    }
}

/// An inert profile used to swap a stored record out of the vector while it
/// is edited.
fn placeholder_profile() -> (r: MentorProfile)
{
    MentorProfile {
        address: 0,
        skills: Vec::new(),
        hourly_rate: 1,
        total_sessions: 0,
        completed_sessions: 0,
        total_rating: 0,
        rating_count: 0,
        reputation_score: 0,
        total_earned: 0,
        registered_at: 0,
        is_active: false,
    }
}

} // verus!
