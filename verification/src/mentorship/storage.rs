//! Instance configuration and the session-id counter.

use vstd::prelude::*;

use crate::mentorship::errors::ContractError;

verus! {

/// The fee rate assumed until one is configured, in basis points.
pub const DEFAULT_FEE_BPS: u32 = 500;

/// The highest platform fee that can ever be configured: 3000 basis points,
/// that is 30%.
pub const MAX_FEE_BPS: u32 = 3000;

/// Configuration cell of one platform instance: administrator, reward-token
/// address, fee rate and the strictly increasing session-id counter.
pub struct Storage {
    pub initialized: bool,
    pub admin: Option<u64>,
    pub reward_token: Option<u64>,
    pub platform_fee_bps: Option<u32>,
    pub session_counter: u64,
}

impl Storage {
    /// A configured fee never exceeds the cap.
    pub open spec fn wf(self) -> bool {
        self.platform_fee_bps is Some ==> self.platform_fee_bps->0 <= MAX_FEE_BPS
    }

    /// The fee rate in force: the configured one, or the default.
    pub open spec fn spec_fee_bps(self) -> u32 {
        match self.platform_fee_bps {
            Some(b) => b,
            None => DEFAULT_FEE_BPS,
        }
    }

    /// Fresh, unconfigured storage.
    pub fn new() -> (r: Storage)
        ensures
            r.wf(),
            !r.initialized,
            (r.admin is None),
            (r.reward_token is None),
            (r.platform_fee_bps is None),
            r.session_counter == 0,
    {
        Storage {
            initialized: false,
            admin: None,
            reward_token: None,
            platform_fee_bps: None,
            session_counter: 0,
        }
    }

    pub fn set_admin(&mut self, admin: u64)
        ensures
            *final(self) == (Storage { admin: Some(admin), ..*old(self) }),
    {
        self.admin = Some(admin);
    }

    /// The administrator; fails while none has been configured.
    pub fn get_admin(&self) -> (r: Result<u64, ContractError>)
        ensures
            match r {
                Ok(a) => self.admin == Some(a),
                Err(e) => self.admin is None && e == ContractError::NotInitialized,
            },
    {
        match self.admin {
            Some(a) => Ok(a),
            None => Err(ContractError::NotInitialized),
        }
    }

    /// Accepts exactly the configured administrator.
    pub fn require_admin(&self, caller: u64) -> (r: Result<(), ContractError>)
        ensures
            r is Ok <==> self.admin == Some(caller),
            r is Err ==> r->Err_0 == (if self.admin is None {
                ContractError::NotInitialized
            } else {
                ContractError::Unauthorized
            }),
    {
        match self.admin {
            Some(a) => {
                if a == caller {
                    Ok(())
                } else {
                    Err(ContractError::Unauthorized)
                }
            },
            None => Err(ContractError::NotInitialized),
        }
    }

    /// Marks the instance configured; rejects doing so twice.
    pub fn set_initialized(&mut self) -> (r: Result<(), ContractError>)
        ensures
            r is Ok <==> !old(self).initialized,
            r is Ok ==> *final(self) == (Storage { initialized: true, ..*old(self) }),
            r is Err ==> *final(self) == *old(self) && r == Err::<(), ContractError>(
                ContractError::AlreadyInitialized,
            ),
    {
        if self.initialized {
            Err(ContractError::AlreadyInitialized)
        } else {
            self.initialized = true;
            Ok(())
        }
    }

    pub fn set_reward_token(&mut self, token: u64)
        ensures
            *final(self) == (Storage { reward_token: Some(token), ..*old(self) }),
    {
        self.reward_token = Some(token);
    }

    /// The reward-token address; fails while none has been configured.
    pub fn get_reward_token(&self) -> (r: Result<u64, ContractError>)
        ensures
            match r {
                Ok(t) => self.reward_token == Some(t),
                Err(e) => self.reward_token is None && e == ContractError::NotInitialized,
            },
    {
        match self.reward_token {
            Some(t) => Ok(t),
            None => Err(ContractError::NotInitialized),
        }
    }

    pub fn set_platform_fee_bps(&mut self, bps: u32)
        requires
            bps <= MAX_FEE_BPS,
        ensures
            *final(self) == (Storage { platform_fee_bps: Some(bps), ..*old(self) }),
    {
        self.platform_fee_bps = Some(bps);
    }

    pub fn get_platform_fee_bps(&self) -> (r: u32)
        ensures
            r == self.spec_fee_bps(),
    {
        match self.platform_fee_bps {
            Some(b) => b,
            None => DEFAULT_FEE_BPS,
        }
    }

    /// Allocates the next session id; ids are strictly increasing from 1 and
    /// never reused.
    pub fn next_session_id(&mut self) -> (r: u64)
        requires
            old(self).session_counter < u64::MAX,
        ensures
            r == old(self).session_counter + 1,
            *final(self) == (Storage { session_counter: r, ..*old(self) }),
    {
        let next = self.session_counter + 1;
        self.session_counter = next;
        next
    }
}

} // verus!
