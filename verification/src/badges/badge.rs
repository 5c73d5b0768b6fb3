//! Badges: level thresholds, the stepped experience formula, per-category
//! experience leaderboards and per-category level statistics.

use vstd::pervasive::VecAdditionalExecFns;
use vstd::prelude::*;

use crate::badges::errors::ContractError;
use crate::badges::storage::Storage;
use crate::badges::types::{
    cat_idx, cat_of, category_index, Badge, BadgeLevel, BadgeStats, LeaderboardEntry,
    LevelInfo, PuzzleCategory, CATEGORY_COUNT,
};

verus! {

/// Experience granted per puzzle before the step multiplier.
pub const XP_PER_PUZZLE_BASE: u64 = 100;

/// The largest puzzle count the experience formula is defined for; beyond
/// it the sum would no longer fit the experience type.
pub const MAX_TRACKED_PUZZLES: u32 = 1_000_000_000;

/// The level earned by a puzzle count: the fixed thresholds are 10, 30, 75,
/// 150 and 300.
pub open spec fn spec_level_of(puzzles_solved: u32) -> BadgeLevel {
    if puzzles_solved < 10 {
        BadgeLevel::Novice
    } else if puzzles_solved < 30 {
        BadgeLevel::Apprentice
    } else if puzzles_solved < 75 {
        BadgeLevel::Practitioner
    } else if puzzles_solved < 150 {
        BadgeLevel::Expert
    } else if puzzles_solved < 300 {
        BadgeLevel::Master
    } else {
        BadgeLevel::Grandmaster
    }
}

/// Experience for `n` solved puzzles: the `i`-th puzzle (0-based) grants
/// `100 * (1 + i / 10)`.
pub open spec fn spec_xp(n: nat) -> int
    decreases n,
{
    if n == 0 {
        0
    } else {
        spec_xp((n - 1) as nat) + 100 * (1 + (n - 1) / 10)
    }
}

/// Experience grows with the puzzle count.
proof fn lemma_xp_mono(a: nat, b: nat)
    requires
        a <= b,
    ensures
        spec_xp(a) <= spec_xp(b),
    decreases b,
{
    if a < b {
        lemma_xp_mono(a, (b - 1) as nat);
    }
}

/// Experience is bracketed by `100 n` and `100 n + 5 n^2`, so any tracked
/// count fits the experience type.
proof fn lemma_xp_bounds(n: nat)
    ensures
        100 * n <= spec_xp(n) <= 100 * n + 5 * n * n,
    decreases n,
{
    if n > 0 {
        let m = (n - 1) as nat;
        lemma_xp_bounds(m);
        assert(100 * (1 + m / 10) <= 100 + 10 * m) by (nonlinear_arith);
        assert(100 * m + 5 * m * m + 100 + 10 * m <= 100 * n + 5 * n * n) by (nonlinear_arith)
            requires
                n == m + 1,
        ;
        assert(100 * n == 100 * m + 100) by (nonlinear_arith)
            requires
                n == m + 1,
        ;
    }
}

/// The lowest puzzle count of a level.
pub open spec fn level_min(l: BadgeLevel) -> u32 {
    match l {
        BadgeLevel::Novice => 0,
        BadgeLevel::Apprentice => 10,
        BadgeLevel::Practitioner => 30,
        BadgeLevel::Expert => 75,
        BadgeLevel::Master => 150,
        BadgeLevel::Grandmaster => 300,
    }
}

/// The puzzle count at which the next level starts; for the top level there
/// is none.
pub open spec fn level_next(l: BadgeLevel) -> u32 {
    match l {
        BadgeLevel::Novice => 10,
        BadgeLevel::Apprentice => 30,
        BadgeLevel::Practitioner => 75,
        BadgeLevel::Expert => 150,
        BadgeLevel::Master => 300,
        BadgeLevel::Grandmaster => u32::MAX,
    }
}

/// What `get_level_info` reports for a (possibly absent) badge.
pub open spec fn spec_level_info(b: Option<Badge>) -> LevelInfo {
    let puzzles = match b {
        Some(g) => g.puzzles_solved,
        None => 0,
    };
    let xp = match b {
        Some(g) => g.xp,
        None => 0,
    };
    let level = match b {
        Some(g) => g.level,
        None => BadgeLevel::Novice,
    };
    let max = level == BadgeLevel::Grandmaster;
    LevelInfo {
        current_level: level,
        current_xp: xp,
        xp_to_next_level: if max {
            0
        } else {
            if spec_xp(level_next(level) as nat) > xp {
                (spec_xp(level_next(level) as nat) - xp) as u64
            } else {
                0
            }
        },
        puzzles_solved: puzzles,
        puzzles_to_next_level: if max {
            0
        } else {
            if level_next(level) > puzzles {
                (level_next(level) - puzzles) as u32
            } else {
                0
            }
        },
        is_max_level: max,
    }
}

pub open spec fn has_badge(s: Seq<Badge>, player: u64, category: PuzzleCategory) -> bool {
    exists|i: int| 0 <= i < s.len() && s[i].player == player && s[i].category == category
}

/// Index of the (unique) badge `player` holds in `category`.
pub open spec fn badge_idx(s: Seq<Badge>, player: u64, category: PuzzleCategory) -> int {
    choose|i: int| 0 <= i < s.len() && s[i].player == player && s[i].category == category
}

/// The badge `player` holds in `category`.
pub open spec fn badge_at(s: Seq<Badge>, player: u64, category: PuzzleCategory) -> Badge {
    s[badge_idx(s, player, category)]
}

pub open spec fn badges_unique(s: Seq<Badge>) -> bool {
    forall|i: int, j: int|
        0 <= i < j < s.len() ==> !(s[i].player == s[j].player && s[i].category == s[j].category)
}

proof fn lemma_badge_found(s: Seq<Badge>, player: u64, category: PuzzleCategory, i: int)
    requires
        badges_unique(s),
        0 <= i < s.len(),
        s[i].player == player,
        s[i].category == category,
    ensures
        has_badge(s, player, category),
        badge_idx(s, player, category) == i,
{
    assert(has_badge(s, player, category));
    let j = badge_idx(s, player, category);
    if i < j {
        assert(!(s[i].player == s[j].player && s[i].category == s[j].category));
    }
    if j < i {
        assert(!(s[j].player == s[i].player && s[j].category == s[i].category));
    }
}

/// A player's stored badge list, as persisted when each badge was awarded.
pub struct PlayerBadges {
    pub player: u64,
    pub badges: Vec<Badge>,
}

pub open spec fn has_list(s: Seq<PlayerBadges>, player: u64) -> bool {
    exists|i: int| 0 <= i < s.len() && s[i].player == player
}

pub open spec fn list_idx(s: Seq<PlayerBadges>, player: u64) -> int {
    choose|i: int| 0 <= i < s.len() && s[i].player == player
}

pub open spec fn lists_unique(s: Seq<PlayerBadges>) -> bool {
    forall|i: int, j: int| 0 <= i < j < s.len() ==> s[i].player != s[j].player
}

proof fn lemma_list_found(s: Seq<PlayerBadges>, player: u64, i: int)
    requires
        lists_unique(s),
        0 <= i < s.len(),
        s[i].player == player,
    ensures
        has_list(s, player),
        list_idx(s, player) == i,
{
    assert(has_list(s, player));
    let j = list_idx(s, player);
    if i < j {
        assert(s[i].player != s[j].player);
    }
    if j < i {
        assert(s[j].player != s[i].player);
    }
}

pub open spec fn board_has(s: Seq<LeaderboardEntry>, player: u64) -> bool {
    exists|i: int| 0 <= i < s.len() && s[i].player == player
}

pub open spec fn board_idx(s: Seq<LeaderboardEntry>, player: u64) -> int {
    choose|i: int| 0 <= i < s.len() && s[i].player == player
}

pub open spec fn board_unique(s: Seq<LeaderboardEntry>) -> bool {
    forall|i: int, j: int| 0 <= i < j < s.len() ==> s[i].player != s[j].player
}

proof fn lemma_board_found(s: Seq<LeaderboardEntry>, player: u64, i: int)
    requires
        board_unique(s),
        0 <= i < s.len(),
        s[i].player == player,
    ensures
        board_has(s, player),
        board_idx(s, player) == i,
{
    assert(board_has(s, player));
    let j = board_idx(s, player);
    if i < j {
        assert(s[i].player != s[j].player);
    }
    if j < i {
        assert(s[j].player != s[i].player);
    }
}

/// Experience never increases along a board.
pub open spec fn sorted_desc(s: Seq<LeaderboardEntry>) -> bool {
    forall|i: int, j: int| 0 <= i < j < s.len() ==> s[i].xp >= s[j].xp
}

/// Rank is the 1-based position in the board.
pub open spec fn ranked(s: Seq<LeaderboardEntry>) -> bool {
    forall|i: int| 0 <= i < s.len() ==> (#[trigger] s[i]).rank == i + 1
}

/// `e` with its rank replaced.
pub open spec fn with_rank(e: LeaderboardEntry, r: int) -> LeaderboardEntry {
    LeaderboardEntry { rank: r as u32, ..e }
}

/// The sort's input: the board with `player`'s row replaced in place, or
/// the new row appended.
pub open spec fn replace_or_append(
    s: Seq<LeaderboardEntry>,
    e: LeaderboardEntry,
) -> Seq<LeaderboardEntry> {
    if board_has(s, e.player) {
        s.update(board_idx(s, e.player), e)
    } else {
        s.push(e)
    }
}

/// `out` holds exactly the rows of `inp`, re-ranked by position.
pub open spec fn reranked_same_entries(
    inp: Seq<LeaderboardEntry>,
    out: Seq<LeaderboardEntry>,
) -> bool {
    &&& out.len() == inp.len()
    &&& board_unique(out)
    &&& forall|i: int|
        #![trigger out[i]]
        0 <= i < out.len() ==> board_has(inp, out[i].player) && out[i] == with_rank(
            inp[board_idx(inp, out[i].player)],
            i + 1,
        )
    &&& forall|k: int| 0 <= k < inp.len() ==> board_has(out, (#[trigger] inp[k]).player)
}

/// Rows with equal experience keep the order they had in `inp`.
pub open spec fn stable_wrt(inp: Seq<LeaderboardEntry>, out: Seq<LeaderboardEntry>) -> bool {
    forall|i: int, j: int|
        #![trigger out[i], out[j]]
        0 <= i < j < out.len() && out[i].xp == out[j].xp ==> board_idx(inp, out[i].player)
            < board_idx(inp, out[j].player)
}

/// Full contract of one maintenance pass on input `inp`.
pub open spec fn valid_board_update(
    inp: Seq<LeaderboardEntry>,
    out: Seq<LeaderboardEntry>,
) -> bool {
    &&& sorted_desc(out)
    &&& ranked(out)
    &&& reranked_same_entries(inp, out)
    &&& stable_wrt(inp, out)
}

/// Invariant of the insertion sort after `p` rows of `inp` are placed.
spec fn sort_inv(inp: Seq<LeaderboardEntry>, out: Seq<LeaderboardEntry>, p: int) -> bool {
    &&& out.len() == p
    &&& 0 <= p <= inp.len()
    &&& sorted_desc(out)
    &&& board_unique(out)
    &&& forall|i: int| 0 <= i < p ==> board_has(out, (#[trigger] inp[i]).player)
    &&& forall|i: int|
        #![trigger out[i]]
        0 <= i < out.len() ==> board_has(inp, out[i].player) && 0 <= board_idx(
            inp,
            out[i].player,
        ) < p && out[i] == inp[board_idx(inp, out[i].player)]
    &&& stable_wrt(inp, out)
}

/// Placing `inp[p]` behind every row with equal or higher experience keeps
/// the sort invariant.
#[verifier::rlimit(50)]
proof fn lemma_sort_insert(
    inp: Seq<LeaderboardEntry>,
    out: Seq<LeaderboardEntry>,
    p: int,
    q: int,
)
    requires
        board_unique(inp),
        sort_inv(inp, out, p),
        p < inp.len(),
        0 <= q <= out.len(),
        forall|i: int| 0 <= i < q ==> (#[trigger] out[i]).xp >= inp[p].xp,
        q == out.len() || out[q].xp < inp[p].xp,
    ensures
        sort_inv(inp, out.insert(q, inp[p]), p + 1),
{
    let cur = inp[p];
    let t = out.insert(q, cur);
    out.insert_ensures(q, cur);
    lemma_board_found(inp, cur.player, p);
    assert forall|k: int| 0 <= k < out.len() implies out[k].player != cur.player by {
        if out[k].player == cur.player {
            assert(board_idx(inp, out[k].player) < p);
            assert(out[k] == inp[board_idx(inp, out[k].player)]);
            lemma_board_found(inp, cur.player, board_idx(inp, out[k].player));
        }
    }
    assert(sorted_desc(t)) by {
        assert forall|i: int, j: int| 0 <= i < j < t.len() implies t[i].xp >= t[j].xp by {
            if i < q && j < q {
            } else if i == q && j > q {
                assert(t[j] == out[j - 1]);
                assert(out[q].xp < cur.xp);
                assert(out[q].xp >= out[j - 1].xp);
            } else if i < q && j == q {
                assert(out[i].xp >= cur.xp);
            } else if i < q && j > q {
                assert(t[i] == out[i] && t[j] == out[j - 1]);
            } else if i > q && j > q {
                assert(t[i] == out[i - 1] && t[j] == out[j - 1]);
            }
        }
    }
    assert(board_unique(t)) by {
        assert forall|i: int, j: int| 0 <= i < j < t.len() implies t[i].player != t[j].player by {
            if i != q && j != q {
            } else if i == q {
                assert(t[j] == out[j - 1]);
            } else {
                assert(t[i] == out[i]);
            }
        }
    }
    assert forall|i: int| 0 <= i < p + 1 implies board_has(t, (#[trigger] inp[i]).player) by {
        if i == p {
            assert(t[q] == cur);
        } else {
            let k = choose|k: int| 0 <= k < out.len() && out[k].player == inp[i].player;
            if k < q {
                assert(t[k] == out[k]);
            } else {
                assert(t[k + 1] == out[k]);
            }
        }
    }
    assert forall|i: int|
        #![trigger t[i]]
        0 <= i < t.len() implies board_has(inp, t[i].player) && 0 <= board_idx(inp, t[i].player) < p
        + 1 && t[i] == inp[board_idx(inp, t[i].player)] by {
        if i == q {
            assert(t[i] == cur);
        } else if i < q {
            assert(t[i] == out[i]);
        } else {
            assert(t[i] == out[i - 1]);
        }
    }
    assert(stable_wrt(inp, t)) by {
        assert forall|i: int, j: int|
            #![trigger t[i], t[j]]
            0 <= i < j < t.len() && t[i].xp == t[j].xp implies board_idx(inp, t[i].player)
            < board_idx(inp, t[j].player) by {
            if i != q && j != q {
                let a = if i < q { i } else { i - 1 };
                let b = if j < q { j } else { j - 1 };
                assert(t[i] == out[a] && t[j] == out[b]);
            } else if i == q {
                assert(t[j] == out[j - 1]);
                assert(out[q].xp >= out[j - 1].xp);
            } else {
                assert(t[i] == out[i]);
                assert(board_idx(inp, out[i].player) < p);
                assert(board_idx(inp, t[j].player) == p);
            }
        }
    }
}

/// The board row derived from a badge, before ranking.
pub open spec fn entry_of(b: Badge) -> LeaderboardEntry {
    LeaderboardEntry {
        player: b.player,
        category: b.category,
        level: b.level,
        xp: b.xp,
        puzzles_solved: b.puzzles_solved,
        rank: 0,
    }
}

/// The count a statistics row keeps for a level.
pub open spec fn level_count(s: BadgeStats, l: BadgeLevel) -> u32 {
    match l {
        BadgeLevel::Novice => s.novice_count,
        BadgeLevel::Apprentice => s.apprentice_count,
        BadgeLevel::Practitioner => s.practitioner_count,
        BadgeLevel::Expert => s.expert_count,
        BadgeLevel::Master => s.master_count,
        BadgeLevel::Grandmaster => s.grandmaster_count,
    }
}

/// `s` with the count for `l` one higher.
pub open spec fn bump_level(s: BadgeStats, l: BadgeLevel) -> BadgeStats {
    match l {
        BadgeLevel::Novice => BadgeStats { novice_count: (s.novice_count + 1) as u32, ..s },
        BadgeLevel::Apprentice => BadgeStats {
            apprentice_count: (s.apprentice_count + 1) as u32,
            ..s
        },
        BadgeLevel::Practitioner => BadgeStats {
            practitioner_count: (s.practitioner_count + 1) as u32,
            ..s
        },
        BadgeLevel::Expert => BadgeStats { expert_count: (s.expert_count + 1) as u32, ..s },
        BadgeLevel::Master => BadgeStats { master_count: (s.master_count + 1) as u32, ..s },
        BadgeLevel::Grandmaster => BadgeStats {
            grandmaster_count: (s.grandmaster_count + 1) as u32,
            ..s
        },
    }
}

/// `s` with the count for `l` one lower, stopping at zero.
pub open spec fn drop_level(s: BadgeStats, l: BadgeLevel) -> BadgeStats {
    match l {
        BadgeLevel::Novice => BadgeStats {
            novice_count: if s.novice_count > 0 {
                (s.novice_count - 1) as u32
            } else {
                0
            },
            ..s
        },
        BadgeLevel::Apprentice => BadgeStats {
            apprentice_count: if s.apprentice_count > 0 {
                (s.apprentice_count - 1) as u32
            } else {
                0
            },
            ..s
        },
        BadgeLevel::Practitioner => BadgeStats {
            practitioner_count: if s.practitioner_count > 0 {
                (s.practitioner_count - 1) as u32
            } else {
                0
            },
            ..s
        },
        BadgeLevel::Expert => BadgeStats {
            expert_count: if s.expert_count > 0 {
                (s.expert_count - 1) as u32
            } else {
                0
            },
            ..s
        },
        BadgeLevel::Master => BadgeStats {
            master_count: if s.master_count > 0 {
                (s.master_count - 1) as u32
            } else {
                0
            },
            ..s
        },
        BadgeLevel::Grandmaster => BadgeStats {
            grandmaster_count: if s.grandmaster_count > 0 {
                (s.grandmaster_count - 1) as u32
            } else {
                0
            },
            ..s
        },
    }
}

/// A statistics row after one badge event: a fresh award adds a badge at
/// `new`; a level change moves one badge from `old` to `new`.
pub open spec fn stats_after(s: BadgeStats, new: BadgeLevel, old: Option<BadgeLevel>) -> BadgeStats {
    match old {
        None => bump_level(BadgeStats { total_badges: (s.total_badges + 1) as u32, ..s }, new),
        Some(o) => bump_level(drop_level(s, o), new),
    }
}

/// How `update_progress` behaves: a missing badge is an error; a count no
/// higher than the stored one changes nothing and returns the stored badge;
/// a higher count rewrites the badge, re-sorts its category's board and
/// moves the level statistics if the level changed.
pub open spec fn progress_updated(
    pre: BadgeManager,
    post: BadgeManager,
    r: Result<Badge, ContractError>,
    player: u64,
    category: PuzzleCategory,
    puzzles_solved: u32,
    now: u64,
) -> bool {
    if !has_badge(pre.badges@, player, category) {
        &&& r == Err::<Badge, ContractError>(ContractError::BadgeNotFound)
        &&& post == pre
    } else {
        let b = badge_at(pre.badges@, player, category);
        if puzzles_solved <= b.puzzles_solved {
            &&& r == Ok::<Badge, ContractError>(b)
            &&& post == pre
        } else {
            let upd = Badge {
                puzzles_solved,
                xp: spec_xp(puzzles_solved as nat) as u64,
                level: spec_level_of(puzzles_solved),
                updated_at: now,
                ..b
            };
            &&& r == Ok::<Badge, ContractError>(upd)
            &&& post.badges@ == pre.badges@.update(badge_idx(pre.badges@, player, category), upd)
            &&& post.player_badges == pre.player_badges
            &&& post.boards@.len() == pre.boards@.len()
            &&& valid_board_update(
                replace_or_append(pre.boards@[cat_idx(category)]@, entry_of(upd)),
                post.boards@[cat_idx(category)]@,
            )
            &&& forall|k: int|
                0 <= k < pre.boards@.len() && k != cat_idx(category) ==> post.boards@[k]
                    == pre.boards@[k]
            &&& post.stats@ == (if b.level == spec_level_of(puzzles_solved) {
                pre.stats@
            } else {
                pre.stats@.update(
                    cat_idx(category),
                    stats_after(
                        pre.stats@[cat_idx(category)],
                        spec_level_of(puzzles_solved),
                        Some(b.level),
                    ),
                )
            })
        }
    }
}

/// Progress is monotone: an update whose puzzle count is at or below the
/// stored one leaves the stored badge — and the whole badge state —
/// unchanged, and hands back the stored badge.
pub proof fn lemma_progress_is_monotone(
    pre: BadgeManager,
    post: BadgeManager,
    r: Result<Badge, ContractError>,
    player: u64,
    category: PuzzleCategory,
    puzzles_solved: u32,
    now: u64,
)
    requires
        progress_updated(pre, post, r, player, category, puzzles_solved, now),
        has_badge(pre.badges@, player, category),
        puzzles_solved <= badge_at(pre.badges@, player, category).puzzles_solved,
    ensures
        post == pre,
        r == Ok::<Badge, ContractError>(badge_at(pre.badges@, player, category)),
{
}

/// How a fresh award behaves: the new badge carries the next id, joins the
/// global set and the player's list, and enters its category's leaderboard
/// and statistics.
pub open spec fn fresh_award(
    pre: BadgeManager,
    post: BadgeManager,
    r: Result<Badge, ContractError>,
    player: u64,
    category: PuzzleCategory,
    puzzles_solved: u32,
    now: u64,
    badge_id: u64,
) -> bool {
    let nb = Badge {
        player,
        category,
        level: spec_level_of(puzzles_solved),
        puzzles_solved,
        xp: spec_xp(puzzles_solved as nat) as u64,
        issued_at: now,
        updated_at: now,
        badge_id,
    };
    &&& r == Ok::<Badge, ContractError>(nb)
    &&& post.badges@ == pre.badges@.push(nb)
    &&& lists_appended(pre.player_badges@, post.player_badges@, player, nb)
    &&& post.boards@.len() == pre.boards@.len()
    &&& valid_board_update(
        replace_or_append(pre.boards@[cat_idx(category)]@, entry_of(nb)),
        post.boards@[cat_idx(category)]@,
    )
    &&& forall|k: int|
        0 <= k < pre.boards@.len() && k != cat_idx(category) ==> post.boards@[k] == pre.boards@[k]
    &&& post.stats@ == pre.stats@.update(
        cat_idx(category),
        stats_after(pre.stats@[cat_idx(category)], spec_level_of(puzzles_solved), None),
    )
}

/// Holds every badge, the per-player badge lists as persisted at award
/// time, and one leaderboard and one statistics row per category.
pub struct BadgeManager {
    pub badges: Vec<Badge>,
    pub player_badges: Vec<PlayerBadges>,
    pub boards: Vec<Vec<LeaderboardEntry>>,
    pub stats: Vec<BadgeStats>,
}

impl BadgeManager {
    pub open spec fn wf(self) -> bool {
        &&& badges_unique(self.badges@)
        &&& forall|i: int|
            0 <= i < self.badges@.len() ==> (#[trigger] self.badges@[i]).badge_id == i + 1
        &&& forall|i: int|
            0 <= i < self.badges@.len() ==> (#[trigger] self.badges@[i]).puzzles_solved
                <= MAX_TRACKED_PUZZLES && self.badges@[i].level == spec_level_of(
                self.badges@[i].puzzles_solved,
            ) && self.badges@[i].xp == spec_xp(self.badges@[i].puzzles_solved as nat)
        &&& lists_unique(self.player_badges@)
        &&& self.boards@.len() == CATEGORY_COUNT
        &&& forall|k: int|
            0 <= k < CATEGORY_COUNT ==> board_unique((#[trigger] self.boards@[k])@) && sorted_desc(
                self.boards@[k]@,
            ) && ranked(self.boards@[k]@) && self.boards@[k]@.len() < u32::MAX
        &&& self.stats@.len() == CATEGORY_COUNT
        &&& forall|k: int|
            0 <= k < CATEGORY_COUNT ==> (#[trigger] self.stats@[k]).category == cat_of(k)
    }

    pub fn new() -> (r: BadgeManager)
        ensures
            r.wf(),
            r.badges@.len() == 0,
            r.player_badges@.len() == 0,
            forall|k: int| 0 <= k < CATEGORY_COUNT ==> (#[trigger] r.boards@[k])@.len() == 0,
            forall|k: int|
                0 <= k < CATEGORY_COUNT ==> (#[trigger] r.stats@[k]) == empty_stats_row(cat_of(k)),
    {
        let mut boards: Vec<Vec<LeaderboardEntry>> = Vec::new();
        let mut stats: Vec<BadgeStats> = Vec::new();
        let mut k: usize = 0;
        while k < CATEGORY_COUNT
            invariant
                k <= CATEGORY_COUNT,
                boards@.len() == k,
                stats@.len() == k,
                forall|j: int| 0 <= j < k ==> (#[trigger] boards@[j])@.len() == 0,
                forall|j: int| 0 <= j < k ==> (#[trigger] stats@[j]) == empty_stats_row(cat_of(j)),
            decreases CATEGORY_COUNT - k,
        {
            boards.push(Vec::new());
            let c = if k == 0 {
                PuzzleCategory::Logic
            } else if k == 1 {
                PuzzleCategory::Math
            } else if k == 2 {
                PuzzleCategory::Pattern
            } else if k == 3 {
                PuzzleCategory::Cryptography
            } else if k == 4 {
                PuzzleCategory::Spatial
            } else if k == 5 {
                PuzzleCategory::WordPuzzle
            } else if k == 6 {
                PuzzleCategory::Strategy
            } else {
                PuzzleCategory::MemoryChallenge
            };
            stats.push(BadgeStats {
                category: c,
                total_badges: 0,
                novice_count: 0,
                apprentice_count: 0,
                practitioner_count: 0,
                expert_count: 0,
                master_count: 0,
                grandmaster_count: 0,
            });
            k = k + 1;
        }
        BadgeManager { badges: Vec::new(), player_badges: Vec::new(), boards, stats }
    }

    /// The level a puzzle count earns.
    pub fn compute_level(puzzles_solved: u32) -> (r: BadgeLevel)
        ensures
            r == spec_level_of(puzzles_solved),
    {
        if puzzles_solved < 10 {
            BadgeLevel::Novice
        } else if puzzles_solved < 30 {
            BadgeLevel::Apprentice
        } else if puzzles_solved < 75 {
            BadgeLevel::Practitioner
        } else if puzzles_solved < 150 {
            BadgeLevel::Expert
        } else if puzzles_solved < 300 {
            BadgeLevel::Master
        } else {
            BadgeLevel::Grandmaster
        }
    }

    /// Experience for a puzzle count: each solved puzzle grants the base
    /// amount times `1 + i / 10` for its 0-based position `i`.
    pub fn compute_xp(puzzles_solved: u32) -> (r: u64)
        requires
            puzzles_solved <= MAX_TRACKED_PUZZLES,
        ensures
            r == spec_xp(puzzles_solved as nat),
    {
        proof {
            lemma_xp_bounds(puzzles_solved as nat);
        }
        let mut xp: u64 = 0;
        let mut i: u32 = 0;
        while i < puzzles_solved
            invariant
                i <= puzzles_solved <= MAX_TRACKED_PUZZLES,
                xp == spec_xp(i as nat),
            decreases puzzles_solved - i,
        {
            proof {
                lemma_xp_mono((i + 1) as nat, puzzles_solved as nat);
                lemma_xp_bounds(puzzles_solved as nat);
                assert(5 * (puzzles_solved as int) * (puzzles_solved as int) <= 5 * 1_000_000_000
                    * 1_000_000_000) by (nonlinear_arith)
                    requires
                        puzzles_solved <= 1_000_000_000,
                ;
                assert(spec_xp((i + 1) as nat) == spec_xp(i as nat) + 100 * (1 + (i as int) / 10));
            }
            let multiplier: u64 = 1 + ((i / 10) as u64);
            xp = xp + XP_PER_PUZZLE_BASE * multiplier;
            i = i + 1;
        }
        xp
    }

    /// The level boundaries: for each level its lowest puzzle count and the
    /// count at which the next level starts.
    pub fn level_thresholds() -> (r: [(u32, u32); 6])
        ensures
            r@.len() == 6,
            forall|i: int|
                0 <= i < 6 ==> (#[trigger] r@[i]) == (
                level_min(level_of_idx(i)),
                level_next(level_of_idx(i)),
                ),
    {
        let r: [(u32, u32); 6] = [
            (0, 10),
            (10, 30),
            (30, 75),
            (75, 150),
            (150, 300),
            (300, u32::MAX),
        ];
        r
    }
}

/// How a player's stored badge list changes when `b` is awarded: appended
/// to the existing list, or a fresh one-badge list.
pub open spec fn lists_appended(
    pre: Seq<PlayerBadges>,
    post: Seq<PlayerBadges>,
    player: u64,
    b: Badge,
) -> bool {
    if has_list(pre, player) {
        &&& post.len() == pre.len()
        &&& forall|j: int|
            0 <= j < pre.len() && j != list_idx(pre, player) ==> post[j] == pre[j]
        &&& post[list_idx(pre, player)].player == player
        &&& post[list_idx(pre, player)].badges@ == pre[list_idx(pre, player)].badges@.push(b)
    } else {
        &&& post.len() == pre.len() + 1
        &&& forall|j: int| 0 <= j < pre.len() ==> post[j] == pre[j]
        &&& post.last().player == player
        &&& post.last().badges@ == seq![b]
    }
}

/// Index of the row owned by `player` in a board, if any.
fn find_row(board: &Vec<LeaderboardEntry>, player: u64) -> (r: Option<usize>)
    requires
        board_unique(board@),
    ensures
        match r {
            Some(i) => board_has(board@, player) && i == board_idx(board@, player) && i
                < board@.len(),
            None => !board_has(board@, player),
        },
{
    let mut k: usize = 0;
    while k < board.len()
        invariant
            k <= board@.len(),
            board_unique(board@),
            forall|j: int| 0 <= j < k ==> board@[j].player != player,
        decreases board@.len() - k,
    {
        if board[k].player == player {
            proof {
                lemma_board_found(board@, player, k as int);
            }
            return Some(k);
        }
        k = k + 1;
    }
    None
}

impl BadgeManager {
    fn find_badge(&self, player: u64, category: PuzzleCategory) -> (r: Option<usize>)
        requires
            badges_unique(self.badges@),
        ensures
            match r {
                Some(i) => has_badge(self.badges@, player, category) && i == badge_idx(
                    self.badges@,
                    player,
                    category,
                ) && i < self.badges@.len(),
                None => !has_badge(self.badges@, player, category),
            },
    {
        let mut k: usize = 0;
        while k < self.badges.len()
            invariant
                k <= self.badges@.len(),
                badges_unique(self.badges@),
                forall|j: int|
                    0 <= j < k ==> !((#[trigger] self.badges@[j]).player == player
                        && self.badges@[j].category == category),
            decreases self.badges@.len() - k,
        {
            if self.badges[k].player == player && self.badges[k].category == category {
                proof {
                    lemma_badge_found(self.badges@, player, category, k as int);
                }
                return Some(k);
            }
            k = k + 1;
        }
        None
    }

    fn find_list(&self, player: u64) -> (r: Option<usize>)
        requires
            lists_unique(self.player_badges@),
        ensures
            match r {
                Some(i) => has_list(self.player_badges@, player) && i == list_idx(
                    self.player_badges@,
                    player,
                ) && i < self.player_badges@.len(),
                None => !has_list(self.player_badges@, player),
            },
    {
        let mut k: usize = 0;
        while k < self.player_badges.len()
            invariant
                k <= self.player_badges@.len(),
                lists_unique(self.player_badges@),
                forall|j: int| 0 <= j < k ==> self.player_badges@[j].player != player,
            decreases self.player_badges@.len() - k,
        {
            if self.player_badges[k].player == player {
                proof {
                    lemma_list_found(self.player_badges@, player, k as int);
                }
                return Some(k);
            }
            k = k + 1;
        }
        None
    }

    /// The badge `player` holds in `category`, if any.
    pub fn get_badge(&self, player: u64, category: PuzzleCategory) -> (r: Option<Badge>)
        requires
            self.wf(),
        ensures
            match r {
                Some(b) => has_badge(self.badges@, player, category) && b == badge_at(
                    self.badges@,
                    player,
                    category,
                ),
                None => !has_badge(self.badges@, player, category),
            },
    {
        match self.find_badge(player, category) {
            Some(i) => Some(self.badges[i]),
            None => None,
        }
    }

    /// The player's badge list as persisted at award time; empty if the
    /// player holds none.
    pub fn get_all_badges(&self, player: u64) -> (r: Vec<Badge>)
        requires
            self.wf(),
        ensures
            r@ == if has_list(self.player_badges@, player) {
                self.player_badges@[list_idx(self.player_badges@, player)].badges@
            } else {
                Seq::<Badge>::empty()
            },
    {
        let mut r: Vec<Badge> = Vec::new();
        let i = match self.find_list(player) {
            Some(i) => i,
            None => {
                return r;
            },
        };
        let mut k: usize = 0;
        let ghost src = self.player_badges@[i as int].badges@;
        while k < self.player_badges[i].badges.len()
            invariant
                i < self.player_badges@.len(),
                src == self.player_badges@[i as int].badges@,
                k <= src.len(),
                r@ == src.subrange(0, k as int),
            decreases src.len() - k,
        {
            r.push(self.player_badges[i].badges[k]);
            proof {
                assert(r@ =~= src.subrange(0, k + 1 as int));
            }
            k = k + 1;
        }
        proof {
            assert(r@ =~= src);
        }
        r
    }

    /// Where the player stands in a category: level, experience and the
    /// distance to the next level.
    pub fn get_level_info(&self, player: u64, category: PuzzleCategory) -> (r: LevelInfo)
        requires
            self.wf(),
        ensures
            r == spec_level_info(
                if has_badge(self.badges@, player, category) {
                    Some(badge_at(self.badges@, player, category))
                } else {
                    None
                },
            ),
    {
        let badge = self.get_badge(player, category);
        let (puzzles_solved, xp, current_level): (u32, u64, BadgeLevel) = match badge {
            Some(b) => (b.puzzles_solved, b.xp, b.level),
            None => (0, 0, BadgeLevel::Novice),
        };
        let thresholds = Self::level_thresholds();
        let level_index: usize = match current_level {
            BadgeLevel::Novice => 0,
            BadgeLevel::Apprentice => 1,
            BadgeLevel::Practitioner => 2,
            BadgeLevel::Expert => 3,
            BadgeLevel::Master => 4,
            BadgeLevel::Grandmaster => 5,
        };
        let is_max_level = level_index == 5;
        let pair = thresholds[level_index];
        let next_threshold = pair.1;
        let puzzles_to_next = if is_max_level {
            0
        } else {
            if next_threshold > puzzles_solved {
                next_threshold - puzzles_solved
            } else {
                0
            }
        };
        let xp_to_next = if is_max_level {
            0
        } else {
            let target = Self::compute_xp(next_threshold);
            if target > xp {
                target - xp
            } else {
                0
            }
        };
        LevelInfo {
            current_level,
            current_xp: xp,
            xp_to_next_level: xp_to_next,
            puzzles_solved,
            puzzles_to_next_level: puzzles_to_next,
            is_max_level,
        }
    }

    /// The first `limit` rows of a category's leaderboard.
    pub fn get_leaderboard(&self, category: PuzzleCategory, limit: u32) -> (r: Vec<
        LeaderboardEntry,
    >)
        requires
            self.wf(),
        ensures
            r@ == self.boards@[cat_idx(category)]@.subrange(
                0,
                if limit <= self.boards@[cat_idx(category)]@.len() {
                    limit as int
                } else {
                    self.boards@[cat_idx(category)]@.len() as int
                },
            ),
    {
        let k = category_index(category);
        let board = &self.boards[k];
        let cap: usize = if (limit as usize) < board.len() {
            limit as usize
        } else {
            board.len()
        };
        let mut r: Vec<LeaderboardEntry> = Vec::new();
        let mut j: usize = 0;
        while j < cap
            invariant
                j <= cap <= board@.len(),
                r@ == board@.subrange(0, j as int),
            decreases cap - j,
        {
            r.push(board[j]);
            proof {
                assert(r@ =~= board@.subrange(0, j + 1 as int));
            }
            j = j + 1;
        }
        proof {
            assert(r@ =~= board@.subrange(
                0,
                if limit <= board@.len() {
                    limit as int
                } else {
                    board@.len() as int
                },
            ));
        }
        r
    }

    /// The statistics row of a category.
    pub fn get_badge_stats(&self, category: PuzzleCategory) -> (r: BadgeStats)
        requires
            self.wf(),
        ensures
            r == self.stats@[cat_idx(category)],
    {
        let k = category_index(category);
        self.stats[k]
    }

    /// Awards `player` a badge in `category`, or — if one exists already —
    /// forwards to `update_progress`. A fresh award needs a positive puzzle
    /// count; it takes the next badge id, is recorded on the player's list,
    /// and enters the category's leaderboard and statistics.
    pub fn award_badge(
        &mut self,
        storage: &mut Storage,
        player: u64,
        category: PuzzleCategory,
        puzzles_solved: u32,
        now: u64,
    ) -> (r: Result<Badge, ContractError>)
        requires
            old(self).wf(),
            puzzles_solved <= MAX_TRACKED_PUZZLES,
            old(storage).badge_counter == old(self).badges@.len(),
            old(storage).badge_counter < u64::MAX,
            old(self).boards@[cat_idx(category)]@.len() + 1 < u32::MAX,
            old(self).stats@[cat_idx(category)].total_badges < u32::MAX,
            level_count(
                drop_level_opt(
                    old(self).stats@[cat_idx(category)],
                    if has_badge(old(self).badges@, player, category) {
                        Some(badge_at(old(self).badges@, player, category).level)
                    } else {
                        None
                    },
                ),
                spec_level_of(puzzles_solved),
            ) < u32::MAX,
        ensures
            final(self).wf(),
            has_badge(old(self).badges@, player, category) ==> *final(storage) == *old(storage)
                && progress_updated(
                *old(self),
                *final(self),
                r,
                player,
                category,
                puzzles_solved,
                now,
            ),
            (!has_badge(old(self).badges@, player, category) && puzzles_solved == 0) ==> (r
                == Err::<Badge, ContractError>(ContractError::InvalidPuzzleCount) && *final(self)
                == *old(self) && *final(storage) == *old(storage)),
            (!has_badge(old(self).badges@, player, category) && puzzles_solved > 0) ==> (
            fresh_award(
                *old(self),
                *final(self),
                r,
                player,
                category,
                puzzles_solved,
                now,
                (old(storage).badge_counter + 1) as u64,
            ) && *final(storage) == (Storage {
                badge_counter: (old(storage).badge_counter + 1) as u64,
                ..*old(storage)
            })),
    {
        if self.find_badge(player, category).is_some() {
            return self.update_progress(player, category, puzzles_solved, now);
        }
        if puzzles_solved == 0 {
            return Err(ContractError::InvalidPuzzleCount);
        }
        let level = Self::compute_level(puzzles_solved);
        let xp = Self::compute_xp(puzzles_solved);
        let badge_id = storage.next_badge_id();
        let badge = Badge {
            player,
            category,
            level,
            puzzles_solved,
            xp,
            issued_at: now,
            updated_at: now,
            badge_id,
        };
        self.badges.push(badge);
        self.add_to_player_badges(player, badge);
        self.update_leaderboard(&badge);
        self.update_stats(category, level, None);
        Ok(badge)
    }

    /// Raises the stored puzzle count of an existing badge. A count at or
    /// below the stored one changes nothing and returns the stored badge;
    /// a higher one rewrites level and experience, re-sorts the category's
    /// leaderboard and moves the level statistics when the level changed.
    pub fn update_progress(
        &mut self,
        player: u64,
        category: PuzzleCategory,
        puzzles_solved: u32,
        now: u64,
    ) -> (r: Result<Badge, ContractError>)
        requires
            old(self).wf(),
            puzzles_solved <= MAX_TRACKED_PUZZLES,
            old(self).boards@[cat_idx(category)]@.len() + 1 < u32::MAX,
            level_count(
                drop_level_opt(
                    old(self).stats@[cat_idx(category)],
                    if has_badge(old(self).badges@, player, category) {
                        Some(badge_at(old(self).badges@, player, category).level)
                    } else {
                        None
                    },
                ),
                spec_level_of(puzzles_solved),
            ) < u32::MAX,
        ensures
            final(self).wf(),
            progress_updated(*old(self), *final(self), r, player, category, puzzles_solved, now),
    {
        let i = match self.find_badge(player, category) {
            Some(i) => i,
            None => {
                return Err(ContractError::BadgeNotFound);
            },
        };
        let b = self.badges[i];
        if puzzles_solved <= b.puzzles_solved {
            return Ok(b);
        }
        let old_level = b.level;
        let new_level = Self::compute_level(puzzles_solved);
        let new_xp = Self::compute_xp(puzzles_solved);
        let upd = Badge {
            puzzles_solved,
            xp: new_xp,
            level: new_level,
            updated_at: now,
            ..b
        };
        self.badges.set(i, upd);
        self.update_leaderboard(&upd);
        if old_level != new_level {
            self.update_stats(category, new_level, Some(old_level));
        }
        Ok(upd)
    }

    /// Appends `badge` to the player's stored list, creating the list on a
    /// first award.
    fn add_to_player_badges(&mut self, player: u64, badge: Badge)
        requires
            lists_unique(old(self).player_badges@),
        ensures
            lists_unique(final(self).player_badges@),
            lists_appended(old(self).player_badges@, final(self).player_badges@, player, badge),
            final(self).badges == old(self).badges,
            final(self).boards == old(self).boards,
            final(self).stats == old(self).stats,
    {
        match self.find_list(player) {
            Some(i) => {
                let mut entry = PlayerBadges { player: 0, badges: Vec::new() };
                self.player_badges.set_and_swap(i, &mut entry);
                entry.badges.push(badge);
                self.player_badges.set(i, entry);
            },
            None => {
                let mut list: Vec<Badge> = Vec::new();
                list.push(badge);
                self.player_badges.push(PlayerBadges { player, badges: list });
            },
        }
    }

    /// One full maintenance pass on the category board of `badge`: replace
    /// or append the player's row, stably re-sort by descending experience,
    /// re-rank from 1, persist.
    fn update_leaderboard(&mut self, badge: &Badge)
        requires
            old(self).boards@.len() == CATEGORY_COUNT,
            board_unique(old(self).boards@[cat_idx(badge.category)]@),
            old(self).boards@[cat_idx(badge.category)]@.len() + 1 < u32::MAX,
        ensures
            final(self).badges == old(self).badges,
            final(self).player_badges == old(self).player_badges,
            final(self).stats == old(self).stats,
            final(self).boards@.len() == CATEGORY_COUNT,
            forall|k: int|
                0 <= k < CATEGORY_COUNT && k != cat_idx(badge.category) ==> final(self).boards@[k]
                    == old(self).boards@[k],
            valid_board_update(
                replace_or_append(old(self).boards@[cat_idx(badge.category)]@, entry_of(*badge)),
                final(self).boards@[cat_idx(badge.category)]@,
            ),
            final(self).boards@[cat_idx(badge.category)]@.len() < u32::MAX,
    {
        let kc = category_index(badge.category);
        let mut board: Vec<LeaderboardEntry> = Vec::new();
        self.boards.set_and_swap(kc, &mut board);
        let new_entry = LeaderboardEntry {
            player: badge.player,
            category: badge.category,
            level: badge.level,
            xp: badge.xp,
            puzzles_solved: badge.puzzles_solved,
            rank: 0,
        };
        proof {
            assert(new_entry == entry_of(*badge));
        }
        let ghost prev = board@;
        match find_row(&board, badge.player) {
            Some(i) => {
                board.set(i, new_entry);
            },
            None => {
                board.push(new_entry);
            },
        }
        proof {
            assert(board@ == replace_or_append(prev, entry_of(*badge)));
            assert(board_unique(board@)) by {
                let inp = board@;
                assert forall|a: int, b: int| 0 <= a < b < inp.len() implies inp[a].player
                    != inp[b].player by {
                    if board_has(prev, badge.player) {
                        let x = board_idx(prev, badge.player);
                        if a == x {
                            assert(inp[a].player == prev[a].player);
                        } else if b == x {
                            assert(inp[b].player == prev[b].player);
                        }
                    } else {
                        if b == prev.len() {
                            assert(inp[a] == prev[a] && inp[b].player == badge.player);
                        }
                    }
                }
            }
        }
        let sorted = sort_and_rank(board);
        self.boards.set(kc, sorted);
    }

    /// Moves the per-level counts of a category after one badge event.
    fn update_stats(
        &mut self,
        category: PuzzleCategory,
        new_level: BadgeLevel,
        old_level: Option<BadgeLevel>,
    )
        requires
            old(self).stats@.len() == CATEGORY_COUNT,
            (old_level is None) ==> old(self).stats@[cat_idx(category)].total_badges < u32::MAX,
            level_count(
                drop_level_opt(old(self).stats@[cat_idx(category)], old_level),
                new_level,
            ) < u32::MAX,
        ensures
            final(self).badges == old(self).badges,
            final(self).player_badges == old(self).player_badges,
            final(self).boards == old(self).boards,
            final(self).stats@ == old(self).stats@.update(
                cat_idx(category),
                stats_after(old(self).stats@[cat_idx(category)], new_level, old_level),
            ),
    {
        let k = category_index(category);
        let mut s = self.stats[k];
        match old_level {
            None => {
                s.total_badges = s.total_badges + 1;
            },
            Some(o) => {
                match o {
                    BadgeLevel::Novice => {
                        s.novice_count = if s.novice_count > 0 {
                            s.novice_count - 1
                        } else {
                            0
                        };
                    },
                    BadgeLevel::Apprentice => {
                        s.apprentice_count = if s.apprentice_count > 0 {
                            s.apprentice_count - 1
                        } else {
                            0
                        };
                    },
                    BadgeLevel::Practitioner => {
                        s.practitioner_count = if s.practitioner_count > 0 {
                            s.practitioner_count - 1
                        } else {
                            0
                        };
                    },
                    BadgeLevel::Expert => {
                        s.expert_count = if s.expert_count > 0 {
                            s.expert_count - 1
                        } else {
                            0
                        };
                    },
                    BadgeLevel::Master => {
                        s.master_count = if s.master_count > 0 {
                            s.master_count - 1
                        } else {
                            0
                        };
                    },
                    BadgeLevel::Grandmaster => {
                        s.grandmaster_count = if s.grandmaster_count > 0 {
                            s.grandmaster_count - 1
                        } else {
                            0
                        };
                    },
                }
            },
        }
        match new_level {
            BadgeLevel::Novice => {
                s.novice_count = s.novice_count + 1;
            },
            BadgeLevel::Apprentice => {
                s.apprentice_count = s.apprentice_count + 1;
            },
            BadgeLevel::Practitioner => {
                s.practitioner_count = s.practitioner_count + 1;
            },
            BadgeLevel::Expert => {
                s.expert_count = s.expert_count + 1;
            },
            BadgeLevel::Master => {
                s.master_count = s.master_count + 1;
            },
            BadgeLevel::Grandmaster => {
                s.grandmaster_count = s.grandmaster_count + 1;
            },
        }
        self.stats.set(k, s);
    }
}

/// Stably sorts a board by descending experience and re-ranks it from 1:
/// rows with equal experience keep the order they had in the input.
fn sort_and_rank(board: Vec<LeaderboardEntry>) -> (out: Vec<LeaderboardEntry>)
    requires
        board_unique(board@),
        board@.len() < u32::MAX,
    ensures
        valid_board_update(board@, out@),
        out@.len() == board@.len(),
{
    let ghost inp = board@;
    let n = board.len();
    let mut out: Vec<LeaderboardEntry> = Vec::new();
    let mut p: usize = 0;
    while p < n
        invariant
            n == inp.len(),
            board@ == inp,
            board_unique(inp),
            sort_inv(inp, out@, p as int),
        decreases n - p,
    {
        let cur = board[p];
        let mut q: usize = 0;
        while q < out.len() && out[q].xp >= cur.xp
            invariant
                q <= out@.len(),
                forall|i: int| 0 <= i < q ==> (#[trigger] out@[i]).xp >= cur.xp,
            decreases out@.len() - q,
        {
            q = q + 1;
        }
        proof {
            lemma_sort_insert(inp, out@, p as int, q as int);
        }
        out.insert(q, cur);
        p = p + 1;
    }
    let ghost base = out@;
    let len = out.len();
    let mut i: usize = 0;
    while i < len
        invariant
            len == base.len() == out@.len(),
            len < u32::MAX,
            forall|j: int| 0 <= j < i ==> out@[j] == with_rank(base[j], j + 1),
            forall|j: int| i <= j < len ==> out@[j] == base[j],
        decreases len - i,
    {
        let mut e = out[i];
        e.rank = (i as u32) + 1;
        out.set(i, e);
        i = i + 1;
    }
    proof {
        let fin = out@;
        assert(sort_inv(inp, base, inp.len() as int));
        assert forall|i2: int| #![trigger fin[i2]] 0 <= i2 < fin.len() implies board_has(
            inp,
            fin[i2].player,
        ) && fin[i2] == with_rank(inp[board_idx(inp, fin[i2].player)], i2 + 1) by {
            assert(fin[i2] == with_rank(base[i2], i2 + 1));
            assert(base[i2] == inp[board_idx(inp, base[i2].player)]);
        }
        assert forall|k2: int| 0 <= k2 < inp.len() implies board_has(
            fin,
            (#[trigger] inp[k2]).player,
        ) by {
            let w = choose|w: int| 0 <= w < base.len() && base[w].player == inp[k2].player;
            assert(fin[w].player == base[w].player);
        }
        assert(board_unique(fin)) by {
            assert forall|a: int, b: int| 0 <= a < b < fin.len() implies fin[a].player
                != fin[b].player by {
                assert(fin[a].player == base[a].player && fin[b].player == base[b].player);
            }
        }
        assert(sorted_desc(fin)) by {
            assert forall|a: int, b: int| 0 <= a < b < fin.len() implies fin[a].xp >= fin[b].xp by {
                assert(fin[a].xp == base[a].xp && fin[b].xp == base[b].xp);
            }
        }
        assert(stable_wrt(inp, fin)) by {
            assert forall|a: int, b: int|
                #![trigger fin[a], fin[b]]
                0 <= a < b < fin.len() && fin[a].xp == fin[b].xp implies board_idx(
                    inp,
                    fin[a].player,
                ) < board_idx(inp, fin[b].player) by {
                assert(fin[a].player == base[a].player && fin[b].player == base[b].player);
                assert(fin[a].xp == base[a].xp && fin[b].xp == base[b].xp);
            }
        }
    }
    out
}

/// The first step of a statistics move: drop the old level's count when
/// there is one.
pub open spec fn drop_level_opt(s: BadgeStats, old: Option<BadgeLevel>) -> BadgeStats {
    match old {
        None => BadgeStats { total_badges: (s.total_badges + 1) as u32, ..s },
        Some(o) => drop_level(s, o),
    }
}

/// The level with 0-based ladder position `i`.
pub open spec fn level_of_idx(i: int) -> BadgeLevel {
    if i == 0 {
        BadgeLevel::Novice
    } else if i == 1 {
        BadgeLevel::Apprentice
    } else if i == 2 {
        BadgeLevel::Practitioner
    } else if i == 3 {
        BadgeLevel::Expert
    } else if i == 4 {
        BadgeLevel::Master
    } else {
        BadgeLevel::Grandmaster
    }
}

/// A zeroed statistics row for a category.
pub open spec fn empty_stats_row(c: PuzzleCategory) -> BadgeStats {
    BadgeStats {
        category: c,
        total_badges: 0,
        novice_count: 0,
        apprentice_count: 0,
        practitioner_count: 0,
        expert_count: 0,
        master_count: 0,
        grandmaster_count: 0,
    }
}

} // verus!
