//! Revocable credentials issued against badges.

use vstd::pervasive::VecAdditionalExecFns;
use vstd::prelude::*;

use crate::badges::errors::ContractError;
use crate::badges::storage::Storage;
use crate::badges::types::{credential_like, Badge, Credential, PuzzleCategory};

verus! {

/// The credentials in `s` held by `player`, oldest first.
pub open spec fn creds_of(s: Seq<Credential>, player: u64) -> Seq<Credential>
    decreases s.len(),
{
    if s.len() == 0 {
        Seq::empty()
    } else {
        let rest = creds_of(s.drop_last(), player);
        if s.last().player == player {
            rest.push(s.last())
        } else {
            rest
        }
    }
}

/// `a` lists the same credential data as `b`, row for row.
pub open spec fn creds_like(a: Seq<Credential>, b: Seq<Credential>) -> bool {
    &&& a.len() == b.len()
    &&& forall|i: int| 0 <= i < a.len() ==> credential_like(#[trigger] a[i], b[i])
}

/// Owns every credential, keyed by id: the credential with id `i + 1` sits
/// at index `i`.
pub struct CredentialManager {
    pub credentials: Vec<Credential>,
}

impl CredentialManager {
    pub open spec fn has_credential(self, credential_id: u64) -> bool {
        1 <= credential_id <= self.credentials@.len()
    }

    pub open spec fn credential_at(self, credential_id: u64) -> Credential {
        self.credentials@[credential_id - 1]
    }

    pub open spec fn wf(self) -> bool {
        forall|i: int|
            0 <= i < self.credentials@.len() ==> (#[trigger] self.credentials@[i]).credential_id
                == i + 1
    }

    pub fn new() -> (r: CredentialManager)
        ensures
            r.wf(),
            r.credentials@.len() == 0,
    {
        CredentialManager { credentials: Vec::new() }
    }

    /// Issues a credential for `badge` under the next id; it starts valid.
    pub fn issue_credential(
        &mut self,
        storage: &mut Storage,
        player: u64,
        badge: Badge,
        metadata: String,
        now: u64,
    ) -> (r: Credential)
        requires
            old(self).wf(),
            old(storage).credential_counter == old(self).credentials@.len(),
            old(storage).credential_counter < u64::MAX,
        ensures
            final(self).wf(),
            final(self).credentials@ == old(self).credentials@.push(
                Credential {
                    credential_id: (old(storage).credential_counter + 1) as u64,
                    player: player,
                    badge: badge,
                    metadata: metadata,
                    issued_at: now,
                    is_valid: true,
                },
            ),
            credential_like(r, final(self).credentials@.last()),
            *final(storage) == (Storage {
                credential_counter: (old(storage).credential_counter + 1) as u64,
                ..*old(storage)
            }),
    {
        let credential_id = storage.next_credential_id();
        let credential = Credential {
            credential_id,
            player,
            badge,
            metadata,
            issued_at: now,
            is_valid: true,
        };
        let snap = credential.snapshot();
        self.credentials.push(credential);
        snap
    }

    /// A copy of the stored credential, if the id names one.
    pub fn get_credential(&self, credential_id: u64) -> (r: Option<Credential>)
        requires
            self.wf(),
        ensures
            match r {
                Some(c) => self.has_credential(credential_id) && credential_like(
                    c,
                    self.credential_at(credential_id),
                ),
                None => !self.has_credential(credential_id),
            },
    {
        if credential_id >= 1 && credential_id <= self.credentials.len() as u64 {
            let i = (credential_id - 1) as usize;
            Some(self.credentials[i].snapshot())
        } else {
            None
        }
    }

    /// Copies of the player's credentials, oldest first.
    pub fn get_player_credentials(&self, player: u64) -> (r: Vec<Credential>)
        ensures
            creds_like(r@, creds_of(self.credentials@, player)),
    {
        let mut r: Vec<Credential> = Vec::new();
        let mut k: usize = 0;
        while k < self.credentials.len()
            invariant
                k <= self.credentials@.len(),
                creds_like(r@, creds_of(self.credentials@.subrange(0, k as int), player)),
            decreases self.credentials@.len() - k,
        {
            proof {
                assert(self.credentials@.subrange(0, k + 1 as int).drop_last()
                    =~= self.credentials@.subrange(0, k as int));
                assert(self.credentials@.subrange(0, k + 1 as int).last()
                    == self.credentials@[k as int]);
            }
            if self.credentials[k].player == player {
                r.push(self.credentials[k].snapshot());
            }
            k = k + 1;
        }
        proof {
            assert(self.credentials@.subrange(0, self.credentials@.len() as int)
                =~= self.credentials@);
        }
        r
    }

    /// Marks a credential invalid; a credential can be revoked only once.
    pub fn revoke_credential(&mut self, credential_id: u64) -> (r: Result<(), ContractError>)
        requires
            old(self).wf(),
        ensures
            final(self).wf(),
            r is Ok <==> (old(self).has_credential(credential_id) && old(self).credential_at(
                credential_id,
            ).is_valid),
            r is Err ==> *final(self) == *old(self) && r->Err_0 == (
            if !old(self).has_credential(credential_id) {
                ContractError::CredentialNotFound
            } else {
                ContractError::CredentialRevoked
            }),
            r is Ok ==> final(self).credentials@ == old(self).credentials@.update(
                credential_id - 1,
                Credential { is_valid: false, ..old(self).credential_at(credential_id) },
            ),
    {
        if credential_id < 1 || credential_id > self.credentials.len() as u64 {
            return Err(ContractError::CredentialNotFound);
        }
        let i = (credential_id - 1) as usize;
        if !self.credentials[i].is_valid {
            return Err(ContractError::CredentialRevoked);
        }
        let mut c = Credential {
            credential_id: 1,
            player: 0,
            badge: placeholder_badge(),
            metadata: String::new(),
            issued_at: 0,
            is_valid: false,
        };
        self.credentials.set_and_swap(i, &mut c);
        c.is_valid = false;
        self.credentials.set(i, c);
        proof {
            assert(self.credentials@ =~= old(self).credentials@.update(
                credential_id - 1,
                Credential { is_valid: false, ..old(self).credential_at(credential_id) },
            ));
        }
        Ok(())
    }
}

/// An inert badge for the placeholder credential used while a stored record
/// is edited.
fn placeholder_badge() -> (r: Badge)
{
    Badge {
        player: 0,
        category: PuzzleCategory::Logic,
        level: crate::badges::types::BadgeLevel::Novice,
        puzzles_solved: 0,
        xp: 0,
        issued_at: 0,
        updated_at: 0,
        badge_id: 1,
    }
}

} // verus!
