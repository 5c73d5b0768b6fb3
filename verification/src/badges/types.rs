//! Data model of the badge subsystem.

use vstd::prelude::*;

verus! {

/// Puzzle areas a badge can be earned in.
#[derive(Clone, Copy, Debug, PartialEq, Eq, Structural)]
pub enum PuzzleCategory {
    Logic,
    Math,
    Pattern,
    Cryptography,
    Spatial,
    WordPuzzle,
    Strategy,
    MemoryChallenge,
}

/// The number of puzzle categories.
pub const CATEGORY_COUNT: usize = 8;

/// A stable index for each category, used to key the per-category
/// leaderboards and statistics.
pub open spec fn cat_idx(c: PuzzleCategory) -> int {
    match c {
        PuzzleCategory::Logic => 0,
        PuzzleCategory::Math => 1,
        PuzzleCategory::Pattern => 2,
        PuzzleCategory::Cryptography => 3,
        PuzzleCategory::Spatial => 4,
        PuzzleCategory::WordPuzzle => 5,
        PuzzleCategory::Strategy => 6,
        PuzzleCategory::MemoryChallenge => 7,
    }
}

/// The category with index `i`.
pub open spec fn cat_of(i: int) -> PuzzleCategory {
    if i == 0 {
        PuzzleCategory::Logic
    } else if i == 1 {
        PuzzleCategory::Math
    } else if i == 2 {
        PuzzleCategory::Pattern
    } else if i == 3 {
        PuzzleCategory::Cryptography
    } else if i == 4 {
        PuzzleCategory::Spatial
    } else if i == 5 {
        PuzzleCategory::WordPuzzle
    } else if i == 6 {
        PuzzleCategory::Strategy
    } else {
        PuzzleCategory::MemoryChallenge
    }
}

/// The index of a category, as an executable function.
pub fn category_index(c: PuzzleCategory) -> (r: usize)
    ensures
        r == cat_idx(c),
        r < CATEGORY_COUNT,
{
    match c {
        PuzzleCategory::Logic => 0,
        PuzzleCategory::Math => 1,
        PuzzleCategory::Pattern => 2,
        PuzzleCategory::Cryptography => 3,
        PuzzleCategory::Spatial => 4,
        PuzzleCategory::WordPuzzle => 5,
        PuzzleCategory::Strategy => 6,
        PuzzleCategory::MemoryChallenge => 7,
    }
}

/// Badge levels, lowest to highest.
#[derive(Clone, Copy, Debug, PartialEq, Eq, Structural)]
pub enum BadgeLevel {
    Novice,
    Apprentice,
    Practitioner,
    Expert,
    Master,
    Grandmaster,
}

/// A player's badge in one category.
#[derive(Clone, Copy, Debug)]
pub struct Badge {
    pub player: u64,
    pub category: PuzzleCategory,
    pub level: BadgeLevel,
    pub puzzles_solved: u32,
    pub xp: u64,
    pub issued_at: u64,
    pub updated_at: u64,
    pub badge_id: u64,
}

/// A revocable certificate issued against a badge, with free-text metadata.
#[derive(Clone, Debug)]
pub struct Credential {
    pub credential_id: u64,
    pub player: u64,
    pub badge: Badge,
    pub metadata: String,
    pub issued_at: u64,
    pub is_valid: bool,
}

/// `a` carries the same credential data as `b`; the metadata is compared by
/// contents. This is how a returned snapshot relates to the stored record.
pub open spec fn credential_like(a: Credential, b: Credential) -> bool {
    &&& a.credential_id == b.credential_id
    &&& a.player == b.player
    &&& a.badge == b.badge
    &&& a.metadata@ == b.metadata@
    &&& a.issued_at == b.issued_at
    &&& a.is_valid == b.is_valid
}

impl Credential {
    /// A copy to hand to the caller while the stored record stays in place.
    pub fn snapshot(&self) -> (r: Credential)
        ensures
            credential_like(r, *self),
    {
        Credential {
            credential_id: self.credential_id,
            player: self.player,
            badge: self.badge,
            metadata: self.metadata.clone(),
            issued_at: self.issued_at,
            is_valid: self.is_valid,
        }
    }
}

/// A player's position within one level: current experience and what the
/// next level still takes.
#[derive(Clone, Copy, Debug)]
pub struct LevelInfo {
    pub current_level: BadgeLevel,
    pub current_xp: u64,
    pub xp_to_next_level: u64,
    pub puzzles_solved: u32,
    pub puzzles_to_next_level: u32,
    pub is_max_level: bool,
}

/// A row of one category's experience leaderboard; `rank` is the 1-based
/// position assigned by the last full sort pass.
#[derive(Clone, Copy, Debug)]
pub struct LeaderboardEntry {
    pub player: u64,
    pub category: PuzzleCategory,
    pub level: BadgeLevel,
    pub xp: u64,
    pub puzzles_solved: u32,
    pub rank: u32,
}

/// Per-category counts of badges by level.
#[derive(Clone, Copy, Debug)]
pub struct BadgeStats {
    pub category: PuzzleCategory,
    pub total_badges: u32,
    pub novice_count: u32,
    pub apprentice_count: u32,
    pub practitioner_count: u32,
    pub expert_count: u32,
    pub master_count: u32,
    pub grandmaster_count: u32,
}

} // verus!
