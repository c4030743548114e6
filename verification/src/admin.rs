use vstd::prelude::*;
use crate::errors::{Abort, ContractError, Fault};
use crate::state::{QuorumProofContract, Config, Part, only_changed};
use crate::types::{Address, RateLimitConfig, TransferRestriction, HolderReputationConfig};

verus! {

broadcast use vstd::std_specs::hash::group_hash_axioms;

/// Reputation points per attestation when none are configured.
pub const DEFAULT_REPUTATION_ATTESTATION_WEIGHT: u64 = 1;
/// Reputation points per age bucket when none are configured.
pub const DEFAULT_REPUTATION_AGE_WEIGHT: u64 = 1;
/// The age bucket, in seconds, when none is configured.
pub const DEFAULT_REPUTATION_AGE_DIVISOR_SECONDS: u64 = 1_000;

/// The refusal of an administrative call by `caller`: not initialized, or not the admin.
pub open spec fn admin_failure(config: Config, caller: Address) -> Option<Fault> {
    match config.admin {
        None => Some(Fault::Abort(Abort::NotInitialized)),
        Some(a) => if a != caller { Some(Fault::Abort(Abort::Unauthorized)) } else { None },
    }
}

impl QuorumProofContract {
    /// Checks that `caller` is the stored admin.
    pub(crate) fn check_admin(&self, caller: Address) -> (r: Result<(), Fault>)
        ensures
            r is Err <==> admin_failure(self.config, caller) is Some,
            r matches Err(f) ==> admin_failure(self.config, caller) == Some(f),
    {
        match self.config.admin {
            None => Err(Fault::Abort(Abort::NotInitialized)),
            Some(a) => if a != caller { Err(Fault::Abort(Abort::Unauthorized)) } else { Ok(()) },
        }
    }

    /// Stores the admin once. A second call is refused.
    pub fn initialize(&mut self, admin: Address) -> (r: Result<(), Fault>)
        requires
            old(self).wf(),
        ensures
            final(self).wf(),
            old(self).config.admin is Some ==> r == Err::<(), Fault>(Fault::Abort(Abort::AlreadyInitialized))
                && *final(self) == *old(self),
            old(self).config.admin is None ==> r is Ok
                && final(self).config == (Config { admin: Some(admin), ..old(self).config })
                && only_changed(*old(self), *final(self), set![Part::Config]),
    {
        if self.config.admin.is_some() {
            return Err(Fault::Abort(Abort::AlreadyInitialized));
        }
        self.config.admin = Some(admin);
        Ok(())
    }

    /// The state schema version; 0 before any migration.
    pub fn get_state_version(&self) -> (v: u32)
        ensures
            v == (match self.config.state_version { Some(v) => v, None => 0 }),
    {
        match self.config.state_version {
            Some(v) => v,
            None => 0,
        }
    }

    /// Moves the state schema from `from_version` to `to_version = from_version + 1`.
    /// Only the step from 0 to 1 is defined.
    pub fn migrate_state(&mut self, admin: Address, from_version: u32, to_version: u32) -> (r: Result<(), Fault>)
        requires
            old(self).wf(),
        ensures
            final(self).wf(),
            ({
                let current = match old(self).config.state_version { Some(v) => v, None => 0 };
                let failure = if admin_failure(old(self).config, admin) is Some {
                    admin_failure(old(self).config, admin)
                } else if to_version != from_version + 1 {
                    Some(Fault::Abort(Abort::InvalidArgument))
                } else if current != from_version {
                    Some(Fault::Abort(Abort::InvalidState))
                } else if from_version != 0 {
                    Some(Fault::Abort(Abort::InvalidState))
                } else {
                    None
                };
                &&& r is Err <==> failure is Some
                &&& r matches Err(f) ==> failure == Some(f) && *final(self) == *old(self)
                &&& r is Ok ==> final(self).config == (Config { state_version: Some(to_version), ..old(self).config })
                    && only_changed(*old(self), *final(self), set![Part::Config])
            }),
    {
        self.check_admin(admin)?;
        if from_version == u32::MAX || to_version != from_version + 1 {
            return Err(Fault::Abort(Abort::InvalidArgument));
        }
        let current = self.get_state_version();
        if current != from_version {
            return Err(Fault::Abort(Abort::InvalidState));
        }
        if from_version != 0 {
            return Err(Fault::Abort(Abort::InvalidState));
        }
        self.config.state_version = Some(to_version);
        Ok(())
    }

    /// Pauses the contract. Only the admin may call this.
    pub fn pause(&mut self, admin: Address) -> (r: Result<(), Fault>)
        requires
            old(self).wf(),
        ensures
            final(self).wf(),
            r is Err <==> admin_failure(old(self).config, admin) is Some,
            r matches Err(f) ==> admin_failure(old(self).config, admin) == Some(f) && *final(self) == *old(self),
            r is Ok ==> final(self).config == (Config { paused: true, ..old(self).config })
                && only_changed(*old(self), *final(self), set![Part::Config]),
    {
        self.check_admin(admin)?;
        self.config.paused = true;
        Ok(())
    }

    /// Unpauses the contract. Only the admin may call this.
    pub fn unpause(&mut self, admin: Address) -> (r: Result<(), Fault>)
        requires
            old(self).wf(),
        ensures
            final(self).wf(),
            r is Err <==> admin_failure(old(self).config, admin) is Some,
            r matches Err(f) ==> admin_failure(old(self).config, admin) == Some(f) && *final(self) == *old(self),
            r is Ok ==> final(self).config == (Config { paused: false, ..old(self).config })
                && only_changed(*old(self), *final(self), set![Part::Config]),
    {
        self.check_admin(admin)?;
        self.config.paused = false;
        Ok(())
    }

    /// Whether the contract is paused.
    pub fn is_paused(&self) -> (p: bool)
        ensures
            p == self.config.paused,
    {
        self.config.paused
    }

    /// Refuses any call while paused with `ContractPaused`.
    pub fn require_not_paused(&self) -> (r: Result<(), Fault>)
        ensures
            r is Ok <==> !self.config.paused,
            r is Err ==> r == Err::<(), Fault>(Fault::Contract(ContractError::ContractPaused)),
    {
        if self.config.paused {
            return Err(Fault::Contract(ContractError::ContractPaused));
        }
        Ok(())
    }

    /// Refuses `caller` with `PermissionDenied` unless it is the admin; before
    /// initialization the check stops as uninitialized.
    pub fn require_admin(&self, caller: Address) -> (r: Result<(), Fault>)
        ensures
            r == (match self.config.admin {
                None => Err(Fault::Abort(Abort::NotInitialized)),
                Some(a) => if a != caller {
                    Err(Fault::Contract(ContractError::PermissionDenied))
                } else {
                    Ok(())
                },
            }),
    {
        match self.config.admin {
            None => Err(Fault::Abort(Abort::NotInitialized)),
            Some(a) => if a != caller { Err(Fault::Contract(ContractError::PermissionDenied)) } else { Ok(()) },
        }
    }

    /// Sets the rate limit configuration. Admin only; both values must be positive.
    pub fn set_rate_limit_config(&mut self, admin: Address, max_calls: u32, window_seconds: u64) -> (r: Result<(), Fault>)
        requires
            old(self).wf(),
        ensures
            final(self).wf(),
            ({
                let failure = if admin_failure(old(self).config, admin) is Some {
                    admin_failure(old(self).config, admin)
                } else if max_calls == 0 || window_seconds == 0 {
                    Some(Fault::Abort(Abort::InvalidArgument))
                } else {
                    None
                };
                &&& r is Err <==> failure is Some
                &&& r matches Err(f) ==> failure == Some(f) && *final(self) == *old(self)
                &&& r is Ok ==> final(self).config == (Config {
                    rate_limit_config: Some(RateLimitConfig { max_calls, window_seconds }),
                    ..old(self).config
                }) && only_changed(*old(self), *final(self), set![Part::Config])
            }),
    {
        self.check_admin(admin)?;
        if max_calls == 0 || window_seconds == 0 {
            return Err(Fault::Abort(Abort::InvalidArgument));
        }
        self.config.rate_limit_config = Some(RateLimitConfig { max_calls, window_seconds });
        Ok(())
    }

    /// Sets the proof-of-work difficulty. Admin only.
    pub fn set_pow_difficulty(&mut self, admin: Address, difficulty: u32) -> (r: Result<(), Fault>)
        requires
            old(self).wf(),
        ensures
            final(self).wf(),
            r is Err <==> admin_failure(old(self).config, admin) is Some,
            r matches Err(f) ==> admin_failure(old(self).config, admin) == Some(f) && *final(self) == *old(self),
            r is Ok ==> final(self).config == (Config { pow_difficulty: Some(difficulty), ..old(self).config })
                && only_changed(*old(self), *final(self), set![Part::Config]),
    {
        self.check_admin(admin)?;
        self.config.pow_difficulty = Some(difficulty);
        Ok(())
    }

    /// Sets whether credentials of a type may be transferred. Admin only.
    pub fn set_transfer_restriction(
        &mut self,
        now: u64,
        admin: Address,
        credential_type: u32,
        is_transferable: bool,
    ) -> (r: Result<(), Fault>)
        requires
            old(self).wf(),
        ensures
            final(self).wf(),
            r is Err <==> admin_failure(old(self).config, admin) is Some,
            r matches Err(f) ==> admin_failure(old(self).config, admin) == Some(f) && *final(self) == *old(self),
            r is Ok ==> final(self).config.transfer_restrictions@ == old(self).config.transfer_restrictions@.insert(
                credential_type,
                TransferRestriction { credential_type, is_transferable, configured_at: now },
            ) && final(self).config.admin == old(self).config.admin
                && final(self).config.paused == old(self).config.paused
                && final(self).config.rate_limit_config == old(self).config.rate_limit_config
                && final(self).config.pow_difficulty == old(self).config.pow_difficulty
                && final(self).config.grace_periods == old(self).config.grace_periods
                && final(self).config.state_version == old(self).config.state_version
                && final(self).config.reputation_config == old(self).config.reputation_config
                && only_changed(*old(self), *final(self), set![Part::Config]),
    {
        self.check_admin(admin)?;
        self.config.transfer_restrictions.insert(
            credential_type,
            TransferRestriction { credential_type, is_transferable, configured_at: now },
        );
        Ok(())
    }

    /// The transfer restriction of a credential type, if configured.
    pub fn get_transfer_restriction(&self, credential_type: u32) -> (t: Option<TransferRestriction>)
        ensures
            t == (if self.config.transfer_restrictions@.contains_key(credential_type) {
                Some(self.config.transfer_restrictions@[credential_type])
            } else {
                None
            }),
    {
        match self.config.transfer_restrictions.get(&credential_type) {
            Some(t) => Some(*t),
            None => None,
        }
    }

    /// Whether credentials of a type may be transferred; unconfigured types may.
    pub fn is_credential_type_transferable(&self, credential_type: u32) -> (b: bool)
        ensures
            b == (if self.config.transfer_restrictions@.contains_key(credential_type) {
                self.config.transfer_restrictions@[credential_type].is_transferable
            } else {
                true
            }),
    {
        match self.config.transfer_restrictions.get(&credential_type) {
            Some(t) => t.is_transferable,
            None => true,
        }
    }

    /// Sets the grace period of a credential type. Admin only; before
    /// initialization the call is refused with `InvalidInput`.
    pub fn set_grace_period(&mut self, admin: Address, credential_type: u32, grace_period_seconds: u64) -> (r: Result<(), Fault>)
        requires
            old(self).wf(),
        ensures
            final(self).wf(),
            ({
                let failure = match old(self).config.admin {
                    None => Some(Fault::Contract(ContractError::InvalidInput)),
                    Some(a) => if a != admin { Some(Fault::Abort(Abort::Unauthorized)) } else { None },
                };
                &&& r is Err <==> failure is Some
                &&& r matches Err(f) ==> failure == Some(f) && *final(self) == *old(self)
                &&& r is Ok ==> final(self).config.grace_periods@
                        == old(self).config.grace_periods@.insert(credential_type, grace_period_seconds)
                    && final(self).config.transfer_restrictions == old(self).config.transfer_restrictions
                    && final(self).config.admin == old(self).config.admin
                    && final(self).config.paused == old(self).config.paused
                    && final(self).config.rate_limit_config == old(self).config.rate_limit_config
                    && final(self).config.pow_difficulty == old(self).config.pow_difficulty
                    && final(self).config.state_version == old(self).config.state_version
                    && final(self).config.reputation_config == old(self).config.reputation_config
                    && only_changed(*old(self), *final(self), set![Part::Config])
            }),
    {
        match self.config.admin {
            None => { return Err(Fault::Contract(ContractError::InvalidInput)); },
            Some(a) => if a != admin { return Err(Fault::Abort(Abort::Unauthorized)); },
        }
        self.config.grace_periods.insert(credential_type, grace_period_seconds);
        Ok(())
    }

    /// The grace period of a credential type; 0 when none is set.
    pub fn get_grace_period(&self, credential_type: u32) -> (g: u64)
        ensures
            g == (if self.config.grace_periods@.contains_key(credential_type) {
                self.config.grace_periods@[credential_type]
            } else {
                0
            }),
    {
        match self.config.grace_periods.get(&credential_type) {
            Some(g) => *g,
            None => 0,
        }
    }

    /// Sets how holder reputation is scored. Admin only; the divisor must be positive.
    pub fn set_holder_reputation_config(
        &mut self,
        admin: Address,
        attestation_weight: u64,
        age_weight: u64,
        age_divisor_seconds: u64,
    ) -> (r: Result<(), Fault>)
        requires
            old(self).wf(),
        ensures
            final(self).wf(),
            ({
                let failure = if admin_failure(old(self).config, admin) is Some {
                    admin_failure(old(self).config, admin)
                } else if age_divisor_seconds == 0 {
                    Some(Fault::Abort(Abort::InvalidArgument))
                } else {
                    None
                };
                &&& r is Err <==> failure is Some
                &&& r matches Err(f) ==> failure == Some(f) && *final(self) == *old(self)
                &&& r is Ok ==> final(self).config == (Config {
                    reputation_config: Some(HolderReputationConfig { attestation_weight, age_weight, age_divisor_seconds }),
                    ..old(self).config
                }) && only_changed(*old(self), *final(self), set![Part::Config])
            }),
    {
        self.check_admin(admin)?;
        if age_divisor_seconds == 0 {
            return Err(Fault::Abort(Abort::InvalidArgument));
        }
        self.config.reputation_config = Some(HolderReputationConfig { attestation_weight, age_weight, age_divisor_seconds });
        Ok(())
    }

    /// The holder reputation configuration in force.
    pub fn get_holder_reputation_config(&self) -> (c: HolderReputationConfig)
        ensures
            c == (match self.config.reputation_config {
                Some(c) => c,
                None => HolderReputationConfig {
                    attestation_weight: DEFAULT_REPUTATION_ATTESTATION_WEIGHT,
                    age_weight: DEFAULT_REPUTATION_AGE_WEIGHT,
                    age_divisor_seconds: DEFAULT_REPUTATION_AGE_DIVISOR_SECONDS,
                },
            }),
    {
        match self.config.reputation_config {
            Some(c) => c,
            None => HolderReputationConfig {
                attestation_weight: DEFAULT_REPUTATION_ATTESTATION_WEIGHT,
                age_weight: DEFAULT_REPUTATION_AGE_WEIGHT,
                age_divisor_seconds: DEFAULT_REPUTATION_AGE_DIVISOR_SECONDS,
            },
        }
    }

    /// Checks that a new code hash may be installed: it must not be all zero
    /// bytes, and the contract must not be paused. Any failed check is
    /// refused with `InvalidInput`.
    pub fn validate_upgrade(&self, new_wasm_hash: &[u8; 32]) -> (r: Result<(), Fault>)
        ensures
            ({
                let failure = if forall|i: int| 0 <= i < 32 ==> new_wasm_hash@[i] == 0 {
                    Some(Fault::Contract(ContractError::InvalidInput))
                } else if self.config.paused {
                    Some(Fault::Contract(ContractError::InvalidInput))
                } else {
                    None
                };
                &&& r is Err <==> failure is Some
                &&& r matches Err(f) ==> failure == Some(f)
            }),
    {
        let mut all_zero = true;
        let mut i: usize = 0;
        while i < 32
            invariant
                i <= 32,
                all_zero == (forall|k: int| 0 <= k < i ==> new_wasm_hash@[k] == 0),
            decreases 32 - i,
        {
            if new_wasm_hash[i] != 0 {
                all_zero = false;
            }
            i += 1;
        }
        if all_zero {
            return Err(Fault::Contract(ContractError::InvalidInput));
        }
        if self.config.paused {
            return Err(Fault::Contract(ContractError::InvalidInput));
        }
        Ok(())
    }

    /// Checks that `admin` may install the new code hash; the installation
    /// itself is the host's.
    pub fn upgrade(&self, admin: Address, new_wasm_hash: &[u8; 32]) -> (r: Result<(), Fault>)
        ensures
            ({
                let failure = if admin_failure(self.config, admin) is Some {
                    admin_failure(self.config, admin)
                } else if forall|i: int| 0 <= i < 32 ==> new_wasm_hash@[i] == 0 {
                    Some(Fault::Contract(ContractError::InvalidInput))
                } else if self.config.paused {
                    Some(Fault::Contract(ContractError::InvalidInput))
                } else {
                    None
                };
                &&& r is Err <==> failure is Some
                &&& r matches Err(f) ==> failure == Some(f)
            }),
    {
        self.check_admin(admin)?;
        self.validate_upgrade(new_wasm_hash)
    }
}

} // verus!
