//! The mentee registry.

use vstd::prelude::*;

use crate::mentorship::errors::ContractError;
use crate::mentorship::types::MenteeProfile;

verus! {

pub open spec fn has_mentee(s: Seq<MenteeProfile>, addr: u64) -> bool {
    exists|i: int| 0 <= i < s.len() && s[i].address == addr
}

/// Index of the (unique) profile registered for `addr`.
pub open spec fn mentee_idx(s: Seq<MenteeProfile>, addr: u64) -> int {
    choose|i: int| 0 <= i < s.len() && s[i].address == addr
}

/// The profile registered for `addr`.
pub open spec fn mentee_at(s: Seq<MenteeProfile>, addr: u64) -> MenteeProfile {
    s[mentee_idx(s, addr)]
}

pub open spec fn mentees_unique(s: Seq<MenteeProfile>) -> bool {
    forall|i: int, j: int| 0 <= i < j < s.len() ==> s[i].address != s[j].address
}

/// With unique addresses, an index holding `addr` is the index of `addr`.
proof fn lemma_mentee_found(s: Seq<MenteeProfile>, addr: u64, i: int)
    requires
        mentees_unique(s),
        0 <= i < s.len(),
        s[i].address == addr,
    ensures
        has_mentee(s, addr),
        mentee_idx(s, addr) == i,
{
    assert(has_mentee(s, addr));
    let j = mentee_idx(s, addr);
    if i < j {
        assert(s[i].address != s[j].address);
    }
    if j < i {
        assert(s[j].address != s[i].address);
    }
}

/// Tracks every registered mentee. Registration happens at most once per
/// address and a profile is never deleted.
pub struct MenteeManager {
    pub profiles: Vec<MenteeProfile>,
}

impl MenteeManager {
    pub open spec fn wf(self) -> bool {
        &&& mentees_unique(self.profiles@)
        &&& forall|i: int| 0 <= i < self.profiles@.len() ==> (#[trigger] self.profiles@[i]).wf()
    }

    pub fn new() -> (r: MenteeManager)
        ensures
            r.wf(),
            r.profiles@.len() == 0,
    {
        MenteeManager { profiles: Vec::new() }
    }

    fn find(&self, addr: u64) -> (r: Option<usize>)
        requires
            mentees_unique(self.profiles@),
        ensures
            match r {
                Some(i) => has_mentee(self.profiles@, addr) && i == mentee_idx(
                    self.profiles@,
                    addr,
                ) && i < self.profiles@.len(),
                None => !has_mentee(self.profiles@, addr),
            },
    {
        let mut k: usize = 0;
        while k < self.profiles.len()
            invariant
                k <= self.profiles@.len(),
                mentees_unique(self.profiles@),
                forall|j: int| 0 <= j < k ==> self.profiles@[j].address != addr,
            decreases self.profiles@.len() - k,
        {
            if self.profiles[k].address == addr {
                proof {
                    lemma_mentee_found(self.profiles@, addr, k as int);
                }
                return Some(k);
            }
            k = k + 1;
        }
        None
    }

    /// Registers `caller`; rejects a second registration of the same
    /// address.
    pub fn register(&mut self, caller: u64, now: u64) -> (r: Result<MenteeProfile, ContractError>)
        requires
            old(self).wf(),
        ensures
            final(self).wf(),
            r is Err <==> has_mentee(old(self).profiles@, caller),
            r is Err ==> *final(self) == *old(self) && r == Err::<MenteeProfile, ContractError>(
                ContractError::AlreadyRegistered,
            ),
            r is Ok ==> r->Ok_0 == (MenteeProfile {
                address: caller,
                total_sessions: 0,
                completed_sessions: 0,
                total_spent: 0,
                registered_at: now,
                is_active: true,
            }) && final(self).profiles@ == old(self).profiles@.push(r->Ok_0),
    {
        if self.find(caller).is_some() {
            return Err(ContractError::AlreadyRegistered);
        }
        let profile = MenteeProfile {
            address: caller,
            total_sessions: 0,
            completed_sessions: 0,
            total_spent: 0,
            registered_at: now,
            is_active: true,
        };
        self.profiles.push(profile);
        Ok(profile)
    }

    pub fn get(&self, mentee: u64) -> (r: Option<MenteeProfile>)
        requires
            self.wf(),
        ensures
            match r {
                Some(p) => has_mentee(self.profiles@, mentee) && p == mentee_at(
                    self.profiles@,
                    mentee,
                ),
                None => !has_mentee(self.profiles@, mentee),
            },
    {
        match self.find(mentee) {
            Some(i) => Some(self.profiles[i]),
            None => None,
        }
    }

    /// The profile of `mentee`, provided it exists and is active.
    pub fn require_active(&self, mentee: u64) -> (r: Result<MenteeProfile, ContractError>)
        requires
            self.wf(),
        ensures
            r is Ok <==> has_mentee(self.profiles@, mentee) && mentee_at(
                self.profiles@,
                mentee,
            ).is_active,
            r is Ok ==> r->Ok_0 == mentee_at(self.profiles@, mentee),
            r is Err ==> r->Err_0 == (if !has_mentee(self.profiles@, mentee) {
                ContractError::MenteeNotFound
            } else {
                ContractError::MenteeNotActive
            }),
    {
        match self.find(mentee) {
            Some(i) => {
                let p = self.profiles[i];
                if p.is_active {
                    Ok(p)
                } else {
                    Err(ContractError::MenteeNotActive)
                }
            },
            None => Err(ContractError::MenteeNotFound),
        }
    }

    /// Counts one more session opened by `mentee`.
    pub fn record_session_created(&mut self, mentee: u64) -> (r: Result<(), ContractError>)
        requires
            old(self).wf(),
            has_mentee(old(self).profiles@, mentee) ==> mentee_at(
                old(self).profiles@,
                mentee,
            ).total_sessions < u32::MAX,
        ensures
            final(self).wf(),
            r is Ok <==> has_mentee(old(self).profiles@, mentee),
            r is Err ==> *final(self) == *old(self) && r == Err::<(), ContractError>(
                ContractError::MenteeNotFound,
            ),
            r is Ok ==> final(self).profiles@ == old(self).profiles@.update(
                mentee_idx(old(self).profiles@, mentee),
                MenteeProfile {
                    total_sessions: (mentee_at(old(self).profiles@, mentee).total_sessions
                        + 1) as u32,
                    ..mentee_at(old(self).profiles@, mentee)
                },
            ),
    {
        match self.find(mentee) {
            Some(i) => {
                let p = self.profiles[i];
                let updated = MenteeProfile { total_sessions: p.total_sessions + 1, ..p };
                self.profiles.set(i, updated);
                Ok(())
            },
            None => Err(ContractError::MenteeNotFound),
        }
    }

    /// Counts one completed session and the amount `mentee` spent on it.
    pub fn record_completion(&mut self, mentee: u64, spent: i128) -> (r: Result<
        (),
        ContractError,
    >)
        requires
            old(self).wf(),
            spent >= 0,
            has_mentee(old(self).profiles@, mentee) ==> {
                let p = mentee_at(old(self).profiles@, mentee);
                p.completed_sessions < p.total_sessions && p.total_spent + spent <= i128::MAX
            },
        ensures
            final(self).wf(),
            r is Ok <==> has_mentee(old(self).profiles@, mentee),
            r is Err ==> *final(self) == *old(self) && r == Err::<(), ContractError>(
                ContractError::MenteeNotFound,
            ),
            r is Ok ==> final(self).profiles@ == old(self).profiles@.update(
                mentee_idx(old(self).profiles@, mentee),
                MenteeProfile {
                    completed_sessions: (mentee_at(old(self).profiles@, mentee).completed_sessions
                        + 1) as u32,
                    total_spent: (mentee_at(old(self).profiles@, mentee).total_spent
                        + spent) as i128,
                    ..mentee_at(old(self).profiles@, mentee)
                },
            ),
    {
        match self.find(mentee) {
            Some(i) => {
                let p = self.profiles[i];
                let updated = MenteeProfile {
                    completed_sessions: p.completed_sessions + 1,
                    total_spent: p.total_spent + spent,
                    ..p
                };
                self.profiles.set(i, updated);
                Ok(())
            },
            None => Err(ContractError::MenteeNotFound),
        }
    }
}

} // verus!
