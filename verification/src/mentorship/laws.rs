//! Platform-wide laws, stated and proved once over the invariants and the
//! operation contracts.

use vstd::prelude::*;

use crate::mentorship::contract::PeerLearningContract;
use crate::mentorship::mentor::{ranked, sorted_desc, stable_wrt, valid_board_update, MentorManager};
use crate::mentorship::session::{lemma_escrow_le_total, SessionManager};
use crate::mentorship::types::{MentorLeaderboardEntry, MentorshipSession};

verus! {

/// On a verified completion the mentor is paid `reward - fee` and the
/// platform collects `fee`: the two payouts always reassemble the escrowed
/// reward exactly, with no value created or lost.
pub proof fn lemma_completion_conserves_reward(s: MentorshipSession)
    requires
        s.wf(),
    ensures
        (s.reward_amount - s.platform_fee) + s.platform_fee == s.reward_amount,
        0 < s.reward_amount - s.platform_fee <= s.reward_amount,
{
}

/// A split resolution pays the mentor `floor(total / 2)` and the mentee the
/// remainder. The two shares sum to the full reward for every amount, odd
/// amounts included, and the mentee receives the odd unit.
pub proof fn lemma_split_conserves_reward(total: i128)
    requires
        total > 0,
    ensures
        total / 2 + (total - total / 2) == total,
        total - total / 2 >= total / 2,
{
}

/// The platform fee locked into a session never exceeds 30% of the reward:
/// `floor(reward * bps / 10000)` with `bps` capped at 3000 stays strictly
/// below the reward and within the cap.
pub proof fn lemma_fee_within_cap(reward_amount: i128, fee_bps: u32)
    requires
        reward_amount > 0,
        fee_bps <= crate::mentorship::storage::MAX_FEE_BPS,
    ensures
        0 <= crate::mentorship::session::fee_of(reward_amount, fee_bps) < reward_amount,
        crate::mentorship::session::fee_of(reward_amount, fee_bps) * 10 <= reward_amount * 3,
{
    let fee = crate::mentorship::session::fee_of(reward_amount, fee_bps);
    assert(0 <= reward_amount * fee_bps / 10000 < reward_amount) by (nonlinear_arith)
        requires
            reward_amount > 0,
            0 <= fee_bps <= 3000,
    ;
    assert((reward_amount * fee_bps / 10000) * 10 <= reward_amount * 3) by (nonlinear_arith)
        requires
            reward_amount > 0,
            0 <= fee_bps <= 3000,
    ;
}

/// A session's escrow record exists if and only if its status is one of
/// `Pending`, `Active`, `PendingVerification` or `Disputed`; in the three
/// terminal statuses it is gone. While it exists it holds exactly the
/// locked reward, and the custody account covers it.
pub proof fn lemma_escrow_iff_funds_held(c: PeerLearningContract, session_id: u64)
    requires
        c.wf(),
        c.sessions.has_session(session_id),
    ensures
        (c.sessions.escrows@[SessionManager::idx(session_id)] is Some) <==> c.sessions.session_at(
            session_id,
        ).status.holds_escrow(),
        c.sessions.escrows@[SessionManager::idx(session_id)] is Some
            ==> c.sessions.escrows@[SessionManager::idx(session_id)]->0 == c.sessions.session_at(
            session_id,
        ).reward_amount && c.token.spec_balance(c.contract_address) >= c.sessions.session_at(
            session_id,
        ).reward_amount,
{
    if c.sessions.escrows@[SessionManager::idx(session_id)] is Some {
        c.sessions.lemma_wf_escrows();
        lemma_escrow_le_total(c.sessions.escrows@, SessionManager::idx(session_id));
    }
}

/// The persisted mentor leaderboard is always sorted by weakly descending
/// reputation score, with rank growing exactly by 1 from 1 down the board.
pub proof fn lemma_leaderboard_sorted_and_ranked(m: MentorManager)
    requires
        m.wf(),
    ensures
        sorted_desc(m.leaderboard@),
        ranked(m.leaderboard@),
        forall|i: int, j: int|
            0 <= i < j < m.leaderboard@.len() ==> (#[trigger] m.leaderboard@[i]).reputation_score
                >= (#[trigger] m.leaderboard@[j]).reputation_score && m.leaderboard@[i].rank == i
                + 1 && m.leaderboard@[j].rank == j + 1,
{
}

/// What one leaderboard maintenance pass on input `inp` guarantees of the
/// persisted board `out`: the same rows, stably sorted by descending score
/// — rows with equal scores keep the order they had in `inp` — and
/// re-ranked by final position.
pub proof fn lemma_board_update_is_stable_sort(
    inp: Seq<MentorLeaderboardEntry>,
    out: Seq<MentorLeaderboardEntry>,
)
    requires
        valid_board_update(inp, out),
    ensures
        out.len() == inp.len(),
        sorted_desc(out),
        ranked(out),
        stable_wrt(inp, out),
{
}

} // verus!
