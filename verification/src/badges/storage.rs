//! Instance configuration and the badge and credential id counters.

use vstd::prelude::*;

use crate::badges::errors::ContractError;

verus! {

/// Configuration cell of one badge-contract instance.
pub struct Storage {
    pub initialized: bool,
    pub admin: Option<u64>,
    pub badge_counter: u64,
    pub credential_counter: u64,
}

impl Storage {
    /// Fresh, unconfigured storage.
    pub fn new() -> (r: Storage)
        ensures
            !r.initialized,
            (r.admin is None),
            r.badge_counter == 0,
            r.credential_counter == 0,
    {
        Storage { initialized: false, admin: None, badge_counter: 0, credential_counter: 0 }
    }

    pub fn set_admin(&mut self, admin: u64)
        ensures
            *final(self) == (Storage { admin: Some(admin), ..*old(self) }),
    {
        self.admin = Some(admin);
    }

    /// The administrator; fails while none has been configured.
    pub fn get_admin(&self) -> (r: Result<u64, ContractError>)
        ensures
            match r {
                Ok(a) => self.admin == Some(a),
                Err(e) => (self.admin is None) && e == ContractError::NotInitialized,
            },
    {
        match self.admin {
            Some(a) => Ok(a),
            None => Err(ContractError::NotInitialized),
        }
    }

    /// Accepts exactly the configured administrator.
    pub fn require_admin(&self, caller: u64) -> (r: Result<(), ContractError>)
        ensures
            r is Ok <==> self.admin == Some(caller),
            r is Err ==> r->Err_0 == (if self.admin is None {
                ContractError::NotInitialized
            } else {
                ContractError::Unauthorized
            }),
    {
        match self.admin {
            Some(a) => {
                if a == caller {
                    Ok(())
                } else {
                    Err(ContractError::Unauthorized)
                }
            },
            None => Err(ContractError::NotInitialized),
        }
    }

    /// Marks the instance configured; rejects doing so twice.
    pub fn set_initialized(&mut self) -> (r: Result<(), ContractError>)
        ensures
            r is Ok <==> !old(self).initialized,
            r is Ok ==> *final(self) == (Storage { initialized: true, ..*old(self) }),
            r is Err ==> *final(self) == *old(self) && r == Err::<(), ContractError>(
                ContractError::AlreadyInitialized,
            ),
    {
        if self.initialized {
            Err(ContractError::AlreadyInitialized)
        } else {
            self.initialized = true;
            Ok(())
        }
    }

    pub fn is_initialized(&self) -> (r: bool)
        ensures
            r == self.initialized,
    {
        self.initialized
    }

    /// Allocates the next badge id; ids are strictly increasing from 1.
    pub fn next_badge_id(&mut self) -> (r: u64)
        requires
            old(self).badge_counter < u64::MAX,
        ensures
            r == old(self).badge_counter + 1,
            *final(self) == (Storage { badge_counter: r, ..*old(self) }),
    {
        let next = self.badge_counter + 1;
        self.badge_counter = next;
        next
    }

    /// Allocates the next credential id; ids are strictly increasing from 1.
    pub fn next_credential_id(&mut self) -> (r: u64)
        requires
            old(self).credential_counter < u64::MAX,
        ensures
            r == old(self).credential_counter + 1,
            *final(self) == (Storage { credential_counter: r, ..*old(self) }),
    {
        let next = self.credential_counter + 1;
        self.credential_counter = next;
        next
    }
}

} // verus!
