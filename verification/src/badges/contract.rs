//! One deployed badge-contract instance: configuration, badges and
//! credentials, with the id counters tied to the stores.

use vstd::prelude::*;

use crate::badges::badge::{
    badge_at, drop_level_opt, fresh_award, has_badge, level_count, progress_updated,
    spec_level_info, spec_level_of, BadgeManager, MAX_TRACKED_PUZZLES,
};
use crate::badges::credential::{creds_like, creds_of, CredentialManager};
use crate::badges::errors::ContractError;
use crate::badges::storage::Storage;
use crate::badges::types::{
    cat_idx, credential_like, Badge, BadgeStats, Credential, LeaderboardEntry, LevelInfo,
    PuzzleCategory,
};

verus! {

/// A badge-contract instance.
pub struct SkillBadgeContract {
    pub storage: Storage,
    pub badges: BadgeManager,
    pub credentials: CredentialManager,
}

impl SkillBadgeContract {
    /// Instance invariant: the stores are well formed and each id counter
    /// counts its store.
    pub open spec fn wf(self) -> bool {
        &&& self.badges.wf()
        &&& self.credentials.wf()
        &&& self.storage.badge_counter == self.badges.badges@.len()
        &&& self.storage.credential_counter == self.credentials.credentials@.len()
    }

    /// A fresh, unconfigured instance.
    pub fn new() -> (r: SkillBadgeContract)
        ensures
            r.wf(),
            !r.storage.initialized,
            (r.storage.admin is None),
            r.badges.badges@.len() == 0,
            r.credentials.credentials@.len() == 0,
    {
        SkillBadgeContract {
            storage: Storage::new(),
            badges: BadgeManager::new(),
            credentials: CredentialManager::new(),
        }
    }

    /// Configures the administrator, exactly once.
    pub fn initialize(&mut self, admin: u64) -> (r: Result<(), ContractError>)
        requires
            old(self).wf(),
        ensures
            final(self).wf(),
            r is Ok <==> !old(self).storage.initialized,
            r is Err ==> *final(self) == *old(self) && r == Err::<(), ContractError>(
                ContractError::AlreadyInitialized,
            ),
            r is Ok ==> *final(self) == (SkillBadgeContract {
                storage: Storage {
                    initialized: true,
                    admin: Some(admin),
                    ..old(self).storage
                },
                ..*old(self)
            }),
    {
        if self.storage.is_initialized() {
            return Err(ContractError::AlreadyInitialized);
        }
        self.storage.set_admin(admin);
        if let Err(e) = self.storage.set_initialized() {
            return Err(e);
        }
        Ok(())
    }

    /// Awards `player` a badge, or raises an existing one; administrators
    /// only.
    pub fn award_badge(
        &mut self,
        caller: u64,
        player: u64,
        category: PuzzleCategory,
        puzzles_solved: u32,
        now: u64,
    ) -> (r: Result<Badge, ContractError>)
        requires
            old(self).wf(),
            puzzles_solved <= MAX_TRACKED_PUZZLES,
            old(self).storage.badge_counter < u64::MAX,
            old(self).badges.boards@[cat_idx(category)]@.len() + 1 < u32::MAX,
            old(self).badges.stats@[cat_idx(category)].total_badges < u32::MAX,
            level_count(
                drop_level_opt(
                    old(self).badges.stats@[cat_idx(category)],
                    if has_badge(old(self).badges.badges@, player, category) {
                        Some(badge_at(old(self).badges.badges@, player, category).level)
                    } else {
                        None
                    },
                ),
                spec_level_of(puzzles_solved),
            ) < u32::MAX,
        ensures
            final(self).wf(),
            old(self).storage.admin != Some(caller) ==> (*final(self) == *old(self) && r is Err
                && r->Err_0 == (if old(self).storage.admin is None {
                ContractError::NotInitialized
            } else {
                ContractError::Unauthorized
            })),
            (old(self).storage.admin == Some(caller) && has_badge(
                old(self).badges.badges@,
                player,
                category,
            )) ==> (final(self).storage == old(self).storage && final(self).credentials == old(
                self,
            ).credentials && progress_updated(
                old(self).badges,
                final(self).badges,
                r,
                player,
                category,
                puzzles_solved,
                now,
            )),
            (old(self).storage.admin == Some(caller) && !has_badge(
                old(self).badges.badges@,
                player,
                category,
            ) && puzzles_solved == 0) ==> (*final(self) == *old(self) && r == Err::<
                Badge,
                ContractError,
            >(ContractError::InvalidPuzzleCount)),
            (old(self).storage.admin == Some(caller) && !has_badge(
                old(self).badges.badges@,
                player,
                category,
            ) && puzzles_solved > 0) ==> (fresh_award(
                old(self).badges,
                final(self).badges,
                r,
                player,
                category,
                puzzles_solved,
                now,
                (old(self).storage.badge_counter + 1) as u64,
            ) && final(self).storage == (Storage {
                badge_counter: (old(self).storage.badge_counter + 1) as u64,
                ..old(self).storage
            }) && final(self).credentials == old(self).credentials),
    {
        if let Err(e) = self.storage.require_admin(caller) {
            return Err(e);
        }
        self.badges.award_badge(&mut self.storage, player, category, puzzles_solved, now)
    }

    /// Raises the stored puzzle count of an existing badge; administrators
    /// only. A count at or below the stored one changes nothing.
    pub fn update_progress(
        &mut self,
        caller: u64,
        player: u64,
        category: PuzzleCategory,
        puzzles_solved: u32,
        now: u64,
    ) -> (r: Result<Badge, ContractError>)
        requires
            old(self).wf(),
            puzzles_solved <= MAX_TRACKED_PUZZLES,
            old(self).badges.boards@[cat_idx(category)]@.len() + 1 < u32::MAX,
            level_count(
                drop_level_opt(
                    old(self).badges.stats@[cat_idx(category)],
                    if has_badge(old(self).badges.badges@, player, category) {
                        Some(badge_at(old(self).badges.badges@, player, category).level)
                    } else {
                        None
                    },
                ),
                spec_level_of(puzzles_solved),
            ) < u32::MAX,
        ensures
            final(self).wf(),
            final(self).storage == old(self).storage,
            final(self).credentials == old(self).credentials,
            old(self).storage.admin != Some(caller) ==> (*final(self) == *old(self) && r is Err
                && r->Err_0 == (if old(self).storage.admin is None {
                ContractError::NotInitialized
            } else {
                ContractError::Unauthorized
            })),
            old(self).storage.admin == Some(caller) ==> progress_updated(
                old(self).badges,
                final(self).badges,
                r,
                player,
                category,
                puzzles_solved,
                now,
            ),
    {
        if let Err(e) = self.storage.require_admin(caller) {
            return Err(e);
        }
        self.badges.update_progress(player, category, puzzles_solved, now)
    }

    /// Issues a credential against the player's badge in `category`;
    /// administrators only, and the badge must exist.
    pub fn issue_credential(
        &mut self,
        caller: u64,
        player: u64,
        category: PuzzleCategory,
        metadata: String,
        now: u64,
    ) -> (r: Result<Credential, ContractError>)
        requires
            old(self).wf(),
            old(self).storage.credential_counter < u64::MAX,
        ensures
            final(self).wf(),
            final(self).badges == old(self).badges,
            r is Err <==> (old(self).storage.admin != Some(caller) || !has_badge(
                old(self).badges.badges@,
                player,
                category,
            )),
            r is Err ==> *final(self) == *old(self) && r->Err_0 == (
            if old(self).storage.admin is None {
                ContractError::NotInitialized
            } else if old(self).storage.admin != Some(caller) {
                ContractError::Unauthorized
            } else {
                ContractError::BadgeNotFound
            }),
            r is Ok ==> ({
                let stored = Credential {
                    credential_id: (old(self).storage.credential_counter + 1) as u64,
                    player: player,
                    badge: badge_at(old(self).badges.badges@, player, category),
                    metadata: metadata,
                    issued_at: now,
                    is_valid: true,
                };
                &&& final(self).credentials.credentials@ == old(
                    self,
                ).credentials.credentials@.push(stored)
                &&& credential_like(r->Ok_0, stored)
                &&& final(self).storage == (Storage {
                    credential_counter: (old(self).storage.credential_counter + 1) as u64,
                    ..old(self).storage
                })
            }),
    {
        if let Err(e) = self.storage.require_admin(caller) {
            return Err(e);
        }
        let badge = match self.badges.get_badge(player, category) {
            Some(b) => b,
            None => {
                return Err(ContractError::BadgeNotFound);
            },
        };
        let credential = self.credentials.issue_credential(
            &mut self.storage,
            player,
            badge,
            metadata,
            now,
        );
        Ok(credential)
    }

    /// The badge `player` holds in `category`, if any.
    pub fn get_badge(&self, player: u64, category: PuzzleCategory) -> (r: Option<Badge>)
        requires
            self.wf(),
        ensures
            match r {
                Some(b) => has_badge(self.badges.badges@, player, category) && b == badge_at(
                    self.badges.badges@,
                    player,
                    category,
                ),
                None => !has_badge(self.badges.badges@, player, category),
            },
    {
        self.badges.get_badge(player, category)
    }

    /// The player's badge list as persisted at award time.
    pub fn get_all_badges(&self, player: u64) -> (r: Vec<Badge>)
        requires
            self.wf(),
        ensures
            r@ == if crate::badges::badge::has_list(self.badges.player_badges@, player) {
                self.badges.player_badges@[crate::badges::badge::list_idx(
                    self.badges.player_badges@,
                    player,
                )].badges@
            } else {
                Seq::<Badge>::empty()
            },
    {
        self.badges.get_all_badges(player)
    }

    /// A copy of the stored credential, if the id names one.
    pub fn get_credential(&self, credential_id: u64) -> (r: Option<Credential>)
        requires
            self.wf(),
        ensures
            match r {
                Some(c) => self.credentials.has_credential(credential_id) && credential_like(
                    c,
                    self.credentials.credential_at(credential_id),
                ),
                None => !self.credentials.has_credential(credential_id),
            },
    {
        self.credentials.get_credential(credential_id)
    }

    /// Copies of the player's credentials, oldest first.
    pub fn get_player_credentials(&self, player: u64) -> (r: Vec<Credential>)
        ensures
            creds_like(r@, creds_of(self.credentials.credentials@, player)),
    {
        self.credentials.get_player_credentials(player)
    }

    /// Where the player stands in a category.
    pub fn get_level_info(&self, player: u64, category: PuzzleCategory) -> (r: LevelInfo)
        requires
            self.wf(),
        ensures
            r == spec_level_info(
                if has_badge(self.badges.badges@, player, category) {
                    Some(badge_at(self.badges.badges@, player, category))
                } else {
                    None
                },
            ),
    {
        self.badges.get_level_info(player, category)
    }

    /// The first `limit` rows of a category's leaderboard.
    pub fn get_leaderboard(&self, category: PuzzleCategory, limit: u32) -> (r: Vec<
        LeaderboardEntry,
    >)
        requires
            self.wf(),
        ensures
            r@ == self.badges.boards@[cat_idx(category)]@.subrange(
                0,
                if limit <= self.badges.boards@[cat_idx(category)]@.len() {
                    limit as int
                } else {
                    self.badges.boards@[cat_idx(category)]@.len() as int
                },
            ),
    {
        self.badges.get_leaderboard(category, limit)
    }

    /// Marks a credential invalid; administrators only.
    pub fn revoke_credential(&mut self, caller: u64, credential_id: u64) -> (r: Result<
        (),
        ContractError,
    >)
        requires
            old(self).wf(),
        ensures
            final(self).wf(),
            final(self).storage == old(self).storage,
            final(self).badges == old(self).badges,
            r is Ok <==> (old(self).storage.admin == Some(caller) && old(
                self,
            ).credentials.has_credential(credential_id) && old(self).credentials.credential_at(
                credential_id,
            ).is_valid),
            r is Err ==> *final(self) == *old(self) && r->Err_0 == (
            if old(self).storage.admin is None {
                ContractError::NotInitialized
            } else if old(self).storage.admin != Some(caller) {
                ContractError::Unauthorized
            } else if !old(self).credentials.has_credential(credential_id) {
                ContractError::CredentialNotFound
            } else {
                ContractError::CredentialRevoked
            }),
            r is Ok ==> final(self).credentials.credentials@ == old(
                self,
            ).credentials.credentials@.update(
                credential_id - 1,
                Credential {
                    is_valid: false,
                    ..old(self).credentials.credential_at(credential_id)
                },
            ),
    {
        if let Err(e) = self.storage.require_admin(caller) {
            return Err(e);
        }
        self.credentials.revoke_credential(credential_id)
    }

    /// Hands the administrator role to `new_admin`; only the current
    /// administrator may do so.
    pub fn transfer_admin(&mut self, caller: u64, new_admin: u64) -> (r: Result<
        (),
        ContractError,
    >)
        requires
            old(self).wf(),
        ensures
            final(self).wf(),
            r is Ok <==> old(self).storage.admin == Some(caller),
            r is Err ==> *final(self) == *old(self) && r->Err_0 == (
            if old(self).storage.admin is None {
                ContractError::NotInitialized
            } else {
                ContractError::Unauthorized
            }),
            r is Ok ==> *final(self) == (SkillBadgeContract {
                storage: Storage { admin: Some(new_admin), ..old(self).storage },
                ..*old(self)
            }),
    {
        if let Err(e) = self.storage.require_admin(caller) {
            return Err(e);
        }
        self.storage.set_admin(new_admin);
        Ok(())
    }

    /// The administrator; fails while the instance is unconfigured.
    pub fn get_admin(&self) -> (r: Result<u64, ContractError>)
        ensures
            match r {
                Ok(a) => self.storage.admin == Some(a),
                Err(e) => (self.storage.admin is None) && e == ContractError::NotInitialized,
            },
    {
        self.storage.get_admin()
    }

    /// The statistics row of a category.
    pub fn get_badge_stats(&self, category: PuzzleCategory) -> (r: BadgeStats)
        requires
            self.wf(),
        ensures
            r == self.badges.stats@[cat_idx(category)],
    {
        self.badges.get_badge_stats(category)
    }
}

} // verus!
