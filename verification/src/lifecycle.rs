use vstd::prelude::*;
use std::collections::HashMap;
use crate::caches::credential_cache_keys;
use crate::checks::timestamp_in_range;
use crate::credentials::activity_record;
use crate::errors::{Abort, ContractError, Fault};
use crate::lists::{none_after, retained_activity, retain_recent};
use crate::state::{only_changed, cred_data_changed, CredField, Part, QuorumProofContract};
use crate::store::{list_at, only_key_set, set_at};
use crate::types::{ActivityRecord, ActivityType, Address, AuditEntry, Credential, EncryptedCredentialMetadata};

verus! {

broadcast use vstd::std_specs::hash::group_hash_axioms;

/// `b` is `a` with credential `id` replaced by `c` and the credential's
/// cached verifications dropped; nothing else changed.
pub open spec fn credential_replaced(a: QuorumProofContract, b: QuorumProofContract, id: u64, c: Credential) -> bool {
    &&& b.credentials@ == a.credentials@.update(id - 1, c)
    &&& b.caches.verification@ == a.caches.verification@.remove_keys(credential_cache_keys(id, a.slices.len() as int))
    &&& b.caches.revocation == a.caches.revocation
    &&& b.caches.metadata == a.caches.metadata
    &&& b.caches.slice_weight == a.caches.slice_weight
    &&& only_changed(a, b, set![Part::Credentials, Part::Caches])
}

/// Credential `c` has expired at `now`.
pub open spec fn expired_at(c: Credential, now: u64) -> bool {
    c.expires_at matches Some(e) && now >= e
}

impl QuorumProofContract {
    /// The grace period of a credential type, 0 when none is set.
    pub open spec fn grace_of(&self, credential_type: u32) -> u64 {
        if self.config.grace_periods@.contains_key(credential_type) { self.config.grace_periods@[credential_type] } else { 0 }
    }

    /// The first reason to refuse `suspend_credential`; `None` when it succeeds.
    pub open spec fn suspend_failure(&self, now: u64, issuer: Address, id: u64) -> Option<Fault> {
        let c = self.credential_at(id);
        if self.issuer_only_failure(issuer, id) is Some {
            self.issuer_only_failure(issuer, id)
        } else if c.revoked {
            Some(Fault::Abort(Abort::CredentialRevoked))
        } else if c.suspended {
            Some(Fault::Abort(Abort::CredentialSuspended))
        } else if expired_at(c, now) {
            Some(Fault::Abort(Abort::CredentialExpired))
        } else {
            None
        }
    }

    /// The issuer suspends a live credential, which stops counting as attested.
    pub fn suspend_credential(&mut self, now: u64, issuer: Address, credential_id: u64) -> (r: Result<(), Fault>)
        requires
            old(self).wf(),
        ensures
            final(self).wf(),
            r is Err <==> old(self).suspend_failure(now, issuer, credential_id) is Some,
            r matches Err(f) ==> old(self).suspend_failure(now, issuer, credential_id) == Some(f) && *final(self) == *old(self),
            r is Ok ==> credential_replaced(*old(self), *final(self), credential_id,
                Credential { suspended: true, ..old(self).credential_at(credential_id) }),
    {
        self.require_not_paused()?;
        let i = match self.find_credential(credential_id) {
            Some(i) => i,
            None => { return Err(Fault::Contract(ContractError::CredentialNotFound)); },
        };
        if self.credentials[i].issuer != issuer {
            return Err(Fault::Abort(Abort::Unauthorized));
        }
        if self.credentials[i].revoked {
            return Err(Fault::Abort(Abort::CredentialRevoked));
        }
        if self.credentials[i].suspended {
            return Err(Fault::Abort(Abort::CredentialSuspended));
        }
        if let Some(e) = self.credentials[i].expires_at {
            if now >= e {
                return Err(Fault::Abort(Abort::CredentialExpired));
            }
        }
        self.credentials[i].suspended = true;
        proof {
            let c = old(self).credential_at(credential_id);
            assert(self.credentials@ =~= old(self).credentials@.update(credential_id - 1, Credential { suspended: true, ..c }));
        }
        Self::invalidate_verification_caches_for_credential(&mut self.caches, self.slices.len() as u64, credential_id);
        Ok(())
    }

    /// The first reason to refuse `resume_credential`; `None` when it succeeds.
    pub open spec fn resume_failure(&self, now: u64, issuer: Address, id: u64) -> Option<Fault> {
        let c = self.credential_at(id);
        if self.issuer_only_failure(issuer, id) is Some {
            self.issuer_only_failure(issuer, id)
        } else if c.revoked {
            Some(Fault::Abort(Abort::CredentialRevoked))
        } else if !c.suspended {
            Some(Fault::Abort(Abort::CredentialNotSuspended))
        } else if expired_at(c, now) {
            Some(Fault::Abort(Abort::CredentialExpired))
        } else {
            None
        }
    }

    /// The issuer lifts the suspension of an unexpired credential.
    pub fn resume_credential(&mut self, now: u64, issuer: Address, credential_id: u64) -> (r: Result<(), Fault>)
        requires
            old(self).wf(),
        ensures
            final(self).wf(),
            r is Err <==> old(self).resume_failure(now, issuer, credential_id) is Some,
            r matches Err(f) ==> old(self).resume_failure(now, issuer, credential_id) == Some(f) && *final(self) == *old(self),
            r is Ok ==> credential_replaced(*old(self), *final(self), credential_id,
                Credential { suspended: false, ..old(self).credential_at(credential_id) }),
    {
        self.require_not_paused()?;
        let i = match self.find_credential(credential_id) {
            Some(i) => i,
            None => { return Err(Fault::Contract(ContractError::CredentialNotFound)); },
        };
        if self.credentials[i].issuer != issuer {
            return Err(Fault::Abort(Abort::Unauthorized));
        }
        if self.credentials[i].revoked {
            return Err(Fault::Abort(Abort::CredentialRevoked));
        }
        if !self.credentials[i].suspended {
            return Err(Fault::Abort(Abort::CredentialNotSuspended));
        }
        if let Some(e) = self.credentials[i].expires_at {
            if now >= e {
                return Err(Fault::Abort(Abort::CredentialExpired));
            }
        }
        self.credentials[i].suspended = false;
        proof {
            let c = old(self).credential_at(credential_id);
            assert(self.credentials@ =~= old(self).credentials@.update(credential_id - 1, Credential { suspended: false, ..c }));
        }
        Self::invalidate_verification_caches_for_credential(&mut self.caches, self.slices.len() as u64, credential_id);
        Ok(())
    }

    /// The first reason to refuse `renew_credential`; `None` when it succeeds.
    pub open spec fn renew_failure(&self, now: u64, issuer: Address, id: u64, new_expires_at: u64) -> Option<Fault> {
        let c = self.credential_at(id);
        if self.config.paused {
            Some(Fault::Contract(ContractError::ContractPaused))
        } else if !timestamp_in_range(now, new_expires_at) {
            Some(Fault::Contract(ContractError::InvalidTimestamp))
        } else if self.issuer_only_failure(issuer, id) is Some {
            self.issuer_only_failure(issuer, id)
        } else if c.revoked {
            Some(Fault::Abort(Abort::CredentialRevoked))
        } else if c.suspended {
            Some(Fault::Abort(Abort::CredentialSuspended))
        } else if new_expires_at <= now {
            Some(Fault::Abort(Abort::InvalidArgument))
        } else if !none_after(self.activity_of(c.subject), now) {
            Some(Fault::Abort(Abort::ArithmeticOverflow))
        } else {
            None
        }
    }

    /// The issuer extends a live credential to `new_expires_at`, which must
    /// lie after `now` and within the accepted distance of it; the holder's
    /// activity log records the renewal.
    pub fn renew_credential(&mut self, now: u64, issuer: Address, credential_id: u64, new_expires_at: u64) -> (r: Result<(), Fault>)
        requires
            old(self).wf(),
        ensures
            final(self).wf(),
            r is Err <==> old(self).renew_failure(now, issuer, credential_id, new_expires_at) is Some,
            r matches Err(f) ==> old(self).renew_failure(now, issuer, credential_id, new_expires_at) == Some(f)
                && *final(self) == *old(self),
            r is Ok ==> {
                let c = old(self).credential_at(credential_id);
                &&& final(self).credentials@ == old(self).credentials@.update(credential_id - 1,
                    Credential { expires_at: Some(new_expires_at), ..c })
                &&& final(self).caches.verification@ == old(self).caches.verification@.remove_keys(
                    credential_cache_keys(credential_id, old(self).slices.len() as int))
                &&& final(self).caches.revocation == old(self).caches.revocation
                &&& final(self).caches.metadata == old(self).caches.metadata
                &&& final(self).caches.slice_weight == old(self).caches.slice_weight
                &&& final(self).activity_of(c.subject) == retained_activity(old(self).activity_of(c.subject), now).push(
                    activity_record(ActivityType::CredentialRenewed, credential_id, now, issuer, None))
                &&& only_key_set(old(self).holders.activity@, final(self).holders.activity@, c.subject.0)
                &&& final(self).holders.attestor_counts == old(self).holders.attestor_counts
                &&& final(self).holders.holder_attestation_counts == old(self).holders.holder_attestation_counts
                &&& final(self).holders.slash_counts == old(self).holders.slash_counts
                &&& final(self).holders.notifications == old(self).holders.notifications
                &&& final(self).holders.reputation_recoveries == old(self).holders.reputation_recoveries
                &&& final(self).holders.successful_verifications == old(self).holders.successful_verifications
                &&& final(self).holders.failed_verifications == old(self).holders.failed_verifications
                &&& final(self).holders.encodings == old(self).holders.encodings
                &&& only_changed(*old(self), *final(self), set![Part::Credentials, Part::Caches, Part::Holders])
            },
    {
        self.require_not_paused()?;
        Self::validate_timestamp(now, new_expires_at)?;
        let i = match self.find_credential(credential_id) {
            Some(i) => i,
            None => { return Err(Fault::Contract(ContractError::CredentialNotFound)); },
        };
        if self.credentials[i].issuer != issuer {
            return Err(Fault::Abort(Abort::Unauthorized));
        }
        if self.credentials[i].revoked {
            return Err(Fault::Abort(Abort::CredentialRevoked));
        }
        if self.credentials[i].suspended {
            return Err(Fault::Abort(Abort::CredentialSuspended));
        }
        if new_expires_at <= now {
            return Err(Fault::Abort(Abort::InvalidArgument));
        }
        let subject = self.credentials[i].subject;
        let empty: Vec<ActivityRecord> = Vec::new();
        let log = match self.holders.activity.get(&subject.0) {
            Some(v) => v,
            None => &empty,
        };
        assert(log@ == old(self).activity_of(subject));
        let mut retained = retain_recent(log, now)?;
        self.credentials[i].expires_at = Some(new_expires_at);
        proof {
            let c = old(self).credential_at(credential_id);
            assert(self.credentials@ =~= old(self).credentials@.update(credential_id - 1, Credential { expires_at: Some(new_expires_at), ..c }));
        }
        Self::invalidate_verification_caches_for_credential(&mut self.caches, self.slices.len() as u64, credential_id);
        retained.push(ActivityRecord {
            activity_type: ActivityType::CredentialRenewed,
            credential_id,
            timestamp: now,
            actor: issuer,
            slice_id: None,
        });
        set_at(&mut self.holders.activity, subject.0, retained);
        Ok(())
    }

    /// Whether the credential has expired at `now` and its type's grace
    /// period after the expiry has also ended. An expiry plus grace period
    /// past `u64::MAX` is refused as an arithmetic overflow.
    pub fn is_expired(&self, now: u64, credential_id: u64) -> (r: Result<bool, Fault>)
        ensures
            !self.has_credential(credential_id) ==> r == Err::<bool, Fault>(Fault::Contract(ContractError::CredentialNotFound)),
            self.has_credential(credential_id) ==> {
                let c = self.credential_at(credential_id);
                let grace = self.grace_of(c.credential_type);
                &&& !expired_at(c, now) ==> r == Ok::<bool, Fault>(false)
                &&& expired_at(c, now) && c.expires_at->Some_0 + grace > u64::MAX ==> r == Err::<bool, Fault>(
                    Fault::Abort(Abort::ArithmeticOverflow))
                &&& expired_at(c, now) && c.expires_at->Some_0 + grace <= u64::MAX ==> r == Ok::<bool, Fault>(
                    now >= c.expires_at->Some_0 + grace)
            },
    {
        let i = match self.find_credential(credential_id) {
            Some(i) => i,
            None => { return Err(Fault::Contract(ContractError::CredentialNotFound)); },
        };
        if let Some(e) = self.credentials[i].expires_at {
            if now >= e {
                let grace = self.get_grace_period(self.credentials[i].credential_type);
                if grace > u64::MAX - e {
                    return Err(Fault::Abort(Abort::ArithmeticOverflow));
                }
                return Ok(now >= e + grace);
            }
        }
        Ok(false)
    }

    /// The first reason to refuse `renew_credential_with_grace`; `None` when it succeeds.
    pub open spec fn renew_with_grace_failure(&self, now: u64, issuer: Address, id: u64) -> Option<Fault> {
        let c = self.credential_at(id);
        let grace = self.grace_of(c.credential_type);
        if self.issuer_only_failure(issuer, id) is Some {
            self.issuer_only_failure(issuer, id)
        } else if c.revoked {
            Some(Fault::Abort(Abort::CredentialRevoked))
        } else if c.suspended {
            Some(Fault::Abort(Abort::CredentialSuspended))
        } else if c.expires_at is None {
            Some(Fault::Abort(Abort::InvalidState))
        } else if c.expires_at is Some && now < c.expires_at->Some_0 {
            Some(Fault::Abort(Abort::InvalidState))
        } else if c.expires_at is Some && c.expires_at->Some_0 + grace > u64::MAX {
            Some(Fault::Abort(Abort::ArithmeticOverflow))
        } else if c.expires_at is Some && now >= c.expires_at->Some_0 + grace {
            Some(Fault::Abort(Abort::CredentialExpired))
        } else if c.version == u32::MAX {
            Some(Fault::Abort(Abort::ArithmeticOverflow))
        } else {
            None
        }
    }

    /// The issuer renews an expired credential within its type's grace
    /// period: the new expiry is set and the version goes up by one. A
    /// credential without an expiry is never in a grace period and is
    /// refused.
    pub fn renew_credential_with_grace(&mut self, now: u64, issuer: Address, credential_id: u64, new_expires_at: u64) -> (r: Result<(), Fault>)
        requires
            old(self).wf(),
        ensures
            final(self).wf(),
            r is Err <==> old(self).renew_with_grace_failure(now, issuer, credential_id) is Some,
            r matches Err(f) ==> old(self).renew_with_grace_failure(now, issuer, credential_id) == Some(f)
                && *final(self) == *old(self),
            r is Ok ==> {
                let c = old(self).credential_at(credential_id);
                credential_replaced(*old(self), *final(self), credential_id,
                    Credential { expires_at: Some(new_expires_at), version: (c.version + 1) as u32, ..c })
            },
    {
        self.require_not_paused()?;
        let i = match self.find_credential(credential_id) {
            Some(i) => i,
            None => { return Err(Fault::Contract(ContractError::CredentialNotFound)); },
        };
        if self.credentials[i].issuer != issuer {
            return Err(Fault::Abort(Abort::Unauthorized));
        }
        if self.credentials[i].revoked {
            return Err(Fault::Abort(Abort::CredentialRevoked));
        }
        if self.credentials[i].suspended {
            return Err(Fault::Abort(Abort::CredentialSuspended));
        }
        let e = match self.credentials[i].expires_at {
            Some(e) => e,
            None => { return Err(Fault::Abort(Abort::InvalidState)); },
        };
        if now < e {
            return Err(Fault::Abort(Abort::InvalidState));
        }
        let grace = self.get_grace_period(self.credentials[i].credential_type);
        if grace > u64::MAX - e {
            return Err(Fault::Abort(Abort::ArithmeticOverflow));
        }
        if now >= e + grace {
            return Err(Fault::Abort(Abort::CredentialExpired));
        }
        if self.credentials[i].version == u32::MAX {
            return Err(Fault::Abort(Abort::ArithmeticOverflow));
        }
        let version = self.credentials[i].version + 1;
        self.credentials[i].expires_at = Some(new_expires_at);
        self.credentials[i].version = version;
        proof {
            let c = old(self).credential_at(credential_id);
            assert(self.credentials@ =~= old(self).credentials@.update(credential_id - 1,
                Credential { expires_at: Some(new_expires_at), version: (c.version + 1) as u32, ..c }));
        }
        Self::invalidate_verification_caches_for_credential(&mut self.caches, self.slices.len() as u64, credential_id);
        Ok(())
    }

    /// The metadata audit trail of a credential, oldest first.
    pub fn get_audit_trail(&self, credential_id: u64) -> (r: Result<&[AuditEntry], Fault>)
        ensures
            !self.has_credential(credential_id) ==> r == Err::<&[AuditEntry], Fault>(Fault::Contract(ContractError::CredentialNotFound)),
            self.has_credential(credential_id) ==> (r matches Ok(t) && t@ == list_at(self.cred_data.audit_trails@, credential_id)),
    {
        if self.find_credential(credential_id).is_none() {
            return Err(Fault::Contract(ContractError::CredentialNotFound));
        }
        match self.cred_data.audit_trails.get(&credential_id) {
            Some(v) => Ok(v.as_slice()),
            None => Ok(&[]),
        }
    }

    /// The first reason to refuse a change to encrypted metadata.
    pub open spec fn encrypted_change_failure(&self, issuer: Address, id: u64) -> Option<Fault> {
        if self.config.paused {
            Some(Fault::Contract(ContractError::ContractPaused))
        } else if !self.has_credential(id) {
            Some(Fault::Contract(ContractError::CredentialNotFound))
        } else if self.credential_at(id).issuer != issuer {
            Some(Fault::Contract(ContractError::PermissionDenied))
        } else {
            None
        }
    }

    fn require_issuer(&self, issuer: Address, credential_id: u64) -> (r: Result<(), Fault>)
        ensures
            r is Ok <==> self.has_credential(credential_id) && self.credential_at(credential_id).issuer == issuer,
            !self.has_credential(credential_id) ==> r == Err::<(), Fault>(Fault::Contract(ContractError::CredentialNotFound)),
            self.has_credential(credential_id) && self.credential_at(credential_id).issuer != issuer
                ==> r == Err::<(), Fault>(Fault::Contract(ContractError::PermissionDenied)),
    {
        let i = match self.find_credential(credential_id) {
            Some(i) => i,
            None => { return Err(Fault::Contract(ContractError::CredentialNotFound)); },
        };
        if self.credentials[i].issuer != issuer {
            return Err(Fault::Contract(ContractError::PermissionDenied));
        }
        Ok(())
    }

    /// The issuer stores encrypted metadata: a non-empty ciphertext and
    /// each party's encrypted data key.
    pub fn set_encrypted_metadata(&mut self, issuer: Address, credential_id: u64, ciphertext: Vec<u8>, encrypted_keys: HashMap<u64, Vec<u8>>) -> (r: Result<(), Fault>)
        ensures
            ({
                let failure = if old(self).encrypted_change_failure(issuer, credential_id) is Some {
                    old(self).encrypted_change_failure(issuer, credential_id)
                } else if ciphertext@.len() == 0 {
                    Some(Fault::Abort(Abort::InvalidArgument))
                } else {
                    None
                };
                &&& r is Err <==> failure is Some
                &&& r matches Err(f) ==> failure == Some(f) && *final(self) == *old(self)
            }),
            r is Ok ==> final(self).cred_data.encrypted_metadata@ == old(self).cred_data.encrypted_metadata@.insert(
                credential_id, EncryptedCredentialMetadata { ciphertext, encrypted_keys })
                && cred_data_changed(old(self).cred_data, final(self).cred_data, set![CredField::EncryptedMetadata])
                && only_changed(*old(self), *final(self), set![Part::CredData]),
    {
        self.require_not_paused()?;
        self.require_issuer(issuer, credential_id)?;
        if ciphertext.len() == 0 {
            return Err(Fault::Abort(Abort::InvalidArgument));
        }
        self.cred_data.encrypted_metadata.insert(credential_id, EncryptedCredentialMetadata { ciphertext, encrypted_keys });
        Ok(())
    }

    /// The issuer gives `party` its encrypted data key, replacing any
    /// earlier one; with no encrypted metadata stored yet, an empty
    /// ciphertext is stored with it.
    pub fn grant_decryption_access(&mut self, issuer: Address, credential_id: u64, party: Address, encrypted_key: Vec<u8>) -> (r: Result<(), Fault>)
        ensures
            ({
                let failure = if old(self).encrypted_change_failure(issuer, credential_id) is Some {
                    old(self).encrypted_change_failure(issuer, credential_id)
                } else if encrypted_key@.len() == 0 {
                    Some(Fault::Abort(Abort::InvalidArgument))
                } else {
                    None
                };
                &&& r is Err <==> failure is Some
                &&& r matches Err(f) ==> failure == Some(f) && *final(self) == *old(self)
            }),
            r is Ok ==> {
                let before = old(self).cred_data.encrypted_metadata@;
                let after = final(self).cred_data.encrypted_metadata@;
                &&& after.contains_key(credential_id)
                &&& after.remove(credential_id) == before.remove(credential_id)
                &&& before.contains_key(credential_id) ==> after[credential_id].ciphertext@ == before[credential_id].ciphertext@
                    && after[credential_id].encrypted_keys@ == before[credential_id].encrypted_keys@.insert(party.0, encrypted_key)
                &&& !before.contains_key(credential_id) ==> after[credential_id].ciphertext@.len() == 0
                    && after[credential_id].encrypted_keys@ == Map::<u64, Vec<u8>>::empty().insert(party.0, encrypted_key)
                &&& cred_data_changed(old(self).cred_data, final(self).cred_data, set![CredField::EncryptedMetadata])
                &&& only_changed(*old(self), *final(self), set![Part::CredData])
            },
    {
        self.require_not_paused()?;
        self.require_issuer(issuer, credential_id)?;
        if encrypted_key.len() == 0 {
            return Err(Fault::Abort(Abort::InvalidArgument));
        }
        let mut stored = match self.cred_data.encrypted_metadata.remove(&credential_id) {
            Some(m) => m,
            None => EncryptedCredentialMetadata { ciphertext: Vec::new(), encrypted_keys: HashMap::new() },
        };
        stored.encrypted_keys.insert(party.0, encrypted_key);
        self.cred_data.encrypted_metadata.insert(credential_id, stored);
        proof {
            assert(self.cred_data.encrypted_metadata@.remove(credential_id) =~= old(self).cred_data.encrypted_metadata@.remove(credential_id));
        }
        Ok(())
    }

    /// The issuer withdraws `party`'s encrypted data key.
    pub fn revoke_decryption_access(&mut self, issuer: Address, credential_id: u64, party: Address) -> (r: Result<(), Fault>)
        ensures
            ({
                let stored = old(self).cred_data.encrypted_metadata@;
                let failure = if old(self).encrypted_change_failure(issuer, credential_id) is Some {
                    old(self).encrypted_change_failure(issuer, credential_id)
                } else if !stored.contains_key(credential_id) || !stored[credential_id].encrypted_keys@.contains_key(party.0) {
                    Some(Fault::Contract(ContractError::DecryptionKeyNotFound))
                } else {
                    None
                };
                &&& r is Err <==> failure is Some
                &&& r matches Err(f) ==> failure == Some(f) && *final(self) == *old(self)
            }),
            r is Ok ==> {
                let before = old(self).cred_data.encrypted_metadata@;
                let after = final(self).cred_data.encrypted_metadata@;
                &&& after.contains_key(credential_id)
                &&& after.remove(credential_id) == before.remove(credential_id)
                &&& after[credential_id].ciphertext@ == before[credential_id].ciphertext@
                &&& after[credential_id].encrypted_keys@ == before[credential_id].encrypted_keys@.remove(party.0)
                &&& cred_data_changed(old(self).cred_data, final(self).cred_data, set![CredField::EncryptedMetadata])
                &&& only_changed(*old(self), *final(self), set![Part::CredData])
            },
    {
        self.require_not_paused()?;
        self.require_issuer(issuer, credential_id)?;
        let found = match self.cred_data.encrypted_metadata.get(&credential_id) {
            Some(m) => m.encrypted_keys.contains_key(&party.0),
            None => false,
        };
        if !found {
            return Err(Fault::Contract(ContractError::DecryptionKeyNotFound));
        }
        let mut stored = match self.cred_data.encrypted_metadata.remove(&credential_id) {
            Some(m) => m,
            None => EncryptedCredentialMetadata { ciphertext: Vec::new(), encrypted_keys: HashMap::new() },
        };
        stored.encrypted_keys.remove(&party.0);
        self.cred_data.encrypted_metadata.insert(credential_id, stored);
        proof {
            assert(self.cred_data.encrypted_metadata@.remove(credential_id) =~= old(self).cred_data.encrypted_metadata@.remove(credential_id));
        }
        Ok(())
    }

    /// The encrypted metadata of a credential, if any.
    pub fn get_encrypted_metadata(&self, credential_id: u64) -> (m: Option<&EncryptedCredentialMetadata>)
        ensures
            m == (if self.cred_data.encrypted_metadata@.contains_key(credential_id) {
                Some(&self.cred_data.encrypted_metadata@[credential_id])
            } else {
                None
            }),
    {
        self.cred_data.encrypted_metadata.get(&credential_id)
    }
}

} // verus!
