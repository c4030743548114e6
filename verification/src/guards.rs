use vstd::prelude::*;
use crate::errors::{ContractError, Fault};
use crate::lists::without_id;
use crate::quorum::contains_address;
use crate::rate_limit::effective_rate_config;
use crate::state::{pack_pair, pair_key, QuorumProofContract};
use crate::store::{list_at, list_at32, only_key_set, push_at, push_at32};
use crate::types::{
    Address, AuditEntry, CredentialVersion, RateLimitConfig, RevocationAuditAction, RevocationAuditEntry,
    RevocationStatus,
};
use crate::lists::remove_id;

verus! {

broadcast use vstd::std_specs::hash::group_hash_axioms;

impl QuorumProofContract {
    /// Refuses a caller that is not the credential's subject.
    pub fn require_subject(&self, caller: Address, credential_id: u64) -> (r: Result<(), Fault>)
        ensures
            r == (if !self.has_credential(credential_id) {
                Err::<(), Fault>(Fault::Contract(ContractError::CredentialNotFound))
            } else if self.credential_at(credential_id).subject != caller {
                Err(Fault::Contract(ContractError::PermissionDenied))
            } else {
                Ok(())
            }),
    {
        let i = match self.find_credential(credential_id) {
            Some(i) => i,
            None => { return Err(Fault::Contract(ContractError::CredentialNotFound)); },
        };
        if self.credentials[i].subject != caller {
            return Err(Fault::Contract(ContractError::PermissionDenied));
        }
        Ok(())
    }

    /// Refuses a caller that did not create the slice.
    pub fn require_slice_creator(&self, caller: Address, slice_id: u64) -> (r: Result<(), Fault>)
        ensures
            r == (if !self.has_slice(slice_id) {
                Err::<(), Fault>(Fault::Contract(ContractError::SliceNotFound))
            } else if self.slice_at(slice_id).creator != caller {
                Err(Fault::Contract(ContractError::PermissionDenied))
            } else {
                Ok(())
            }),
    {
        let si = match self.find_slice(slice_id) {
            Some(si) => si,
            None => { return Err(Fault::Contract(ContractError::SliceNotFound)); },
        };
        if self.slices[si].creator != caller {
            return Err(Fault::Contract(ContractError::PermissionDenied));
        }
        Ok(())
    }

    /// Refuses a caller that is not one of the slice's attestors.
    pub fn require_slice_member(&self, caller: Address, slice_id: u64) -> (r: Result<(), Fault>)
        ensures
            r == (if !self.has_slice(slice_id) {
                Err::<(), Fault>(Fault::Contract(ContractError::SliceNotFound))
            } else if !self.slice_at(slice_id).attestors@.contains(caller) {
                Err(Fault::Contract(ContractError::PermissionDenied))
            } else {
                Ok(())
            }),
    {
        let si = match self.find_slice(slice_id) {
            Some(si) => si,
            None => { return Err(Fault::Contract(ContractError::SliceNotFound)); },
        };
        if !contains_address(&self.slices[si].attestors, caller) {
            return Err(Fault::Contract(ContractError::PermissionDenied));
        }
        Ok(())
    }

    /// Refuses a holder that the issuer has blacklisted.
    pub fn require_not_blacklisted(&self, issuer: Address, holder: Address) -> (r: Result<(), Fault>)
        ensures
            r == (if self.is_blacklisted(issuer, holder) {
                Err::<(), Fault>(Fault::Contract(ContractError::HolderBlacklisted))
            } else {
                Ok(())
            }),
    {
        if self.is_holder_blacklisted(issuer, holder) {
            return Err(Fault::Contract(ContractError::HolderBlacklisted));
        }
        Ok(())
    }

    /// Refuses a missing or revoked credential.
    pub fn require_not_revoked(&self, credential_id: u64) -> (r: Result<(), Fault>)
        ensures
            r == (if !self.has_credential(credential_id) {
                Err::<(), Fault>(Fault::Contract(ContractError::CredentialNotFound))
            } else if self.credential_at(credential_id).revoked {
                Err(Fault::Contract(ContractError::UnauthorizedAction))
            } else {
                Ok(())
            }),
    {
        let i = match self.find_credential(credential_id) {
            Some(i) => i,
            None => { return Err(Fault::Contract(ContractError::CredentialNotFound)); },
        };
        if self.credentials[i].revoked {
            return Err(Fault::Contract(ContractError::UnauthorizedAction));
        }
        Ok(())
    }

    /// Refuses a missing or suspended credential.
    pub fn require_not_suspended(&self, credential_id: u64) -> (r: Result<(), Fault>)
        ensures
            r == (if !self.has_credential(credential_id) {
                Err::<(), Fault>(Fault::Contract(ContractError::CredentialNotFound))
            } else if self.credential_at(credential_id).suspended {
                Err(Fault::Contract(ContractError::UnauthorizedAction))
            } else {
                Ok(())
            }),
    {
        let i = match self.find_credential(credential_id) {
            Some(i) => i,
            None => { return Err(Fault::Contract(ContractError::CredentialNotFound)); },
        };
        if self.credentials[i].suspended {
            return Err(Fault::Contract(ContractError::UnauthorizedAction));
        }
        Ok(())
    }

    /// Refuses a credential id that is not stored.
    pub fn require_credential_exists(&self, credential_id: u64) -> (r: Result<(), Fault>)
        ensures
            r == (if self.has_credential(credential_id) {
                Ok::<(), Fault>(())
            } else {
                Err(Fault::Contract(ContractError::CredentialNotFound))
            }),
    {
        if self.find_credential(credential_id).is_none() {
            return Err(Fault::Contract(ContractError::CredentialNotFound));
        }
        Ok(())
    }

    /// Refuses a slice id that is not stored.
    pub fn require_slice_exists(&self, slice_id: u64) -> (r: Result<(), Fault>)
        ensures
            r == (if self.has_slice(slice_id) {
                Ok::<(), Fault>(())
            } else {
                Err(Fault::Contract(ContractError::SliceNotFound))
            }),
    {
        if self.find_slice(slice_id).is_none() {
            return Err(Fault::Contract(ContractError::SliceNotFound));
        }
        Ok(())
    }

    /// The rate limit configuration in force (the stored one, or the default).
    pub fn get_rate_limit_config(&self) -> (c: RateLimitConfig)
        ensures
            c == effective_rate_config(self.config.rate_limit_config),
    {
        self.get_rate_limit_config_pub()
    }

    /// Whether `caller` may verify the credential: it holds a delegation
    /// that has not expired at `now`, or (as the soulbound token registry
    /// answers, `holds_sbt`) it owns a token linked to the credential.
    pub open spec fn verifier_authorized(&self, now: u64, caller: Address, credential_id: u64, holds_sbt: bool) -> bool {
        (self.cred_data.delegations@.contains_key(pair_key(credential_id, caller.0))
            && now < self.cred_data.delegations@[pair_key(credential_id, caller.0)].expiry) || holds_sbt
    }

    /// Whether `caller` may verify the credential (`verifier_authorized`).
    pub fn is_authorized_verifier(&self, now: u64, caller: Address, credential_id: u64, holds_sbt: bool) -> (b: bool)
        ensures
            b == self.verifier_authorized(now, caller, credential_id, holds_sbt),
    {
        match self.cred_data.delegations.get(&pack_pair(credential_id, caller.0)) {
            Some(d) => {
                if now < d.expiry {
                    return true;
                }
            },
            None => {},
        }
        holds_sbt
    }

    /// Whether an engineer verification of the credential may go ahead: the
    /// party that asks is `verifier` when one is named and the subject
    /// otherwise, and that party must be authorized (`verifier_authorized`);
    /// `caller_holds_sbt` is the registry's answer for that party.
    pub fn engineer_caller_authorized(
        &self,
        now: u64,
        subject: Address,
        verifier: Option<Address>,
        credential_id: u64,
        caller_holds_sbt: bool,
    ) -> (b: bool)
        ensures
            b == self.verifier_authorized(
                now,
                match verifier {
                    Some(v) => v,
                    None => subject,
                },
                credential_id,
                caller_holds_sbt,
            ),
    {
        let caller = match verifier {
            Some(v) => v,
            None => subject,
        };
        self.is_authorized_verifier(now, caller, credential_id, caller_holds_sbt)
    }

    /// Multi-signature approval of a credential; every credential counts
    /// as approved.
    pub fn is_multisig_approved(&self, credential_id: u64) -> (b: bool)
        ensures
            b,
    {
        true
    }

    /// Caches whether a credential is revoked.
    pub fn set_revocation_cache(&mut self, credential_id: u64, revoked: bool)
        ensures
            final(self).caches.revocation@ == old(self).caches.revocation@.insert(credential_id, revoked),
            final(self).caches.verification == old(self).caches.verification,
            final(self).caches.metadata == old(self).caches.metadata,
            final(self).caches.slice_weight == old(self).caches.slice_weight,
            crate::state::only_changed(*old(self), *final(self), set![crate::state::Part::Caches]),
    {
        self.caches.revocation.insert(credential_id, revoked);
    }

    /// Drops the cached revocation status of a credential.
    pub fn invalidate_revocation_cache(&mut self, credential_id: u64)
        ensures
            final(self).caches.revocation@ == old(self).caches.revocation@.remove(credential_id),
            final(self).caches.verification == old(self).caches.verification,
            final(self).caches.metadata == old(self).caches.metadata,
            final(self).caches.slice_weight == old(self).caches.slice_weight,
            crate::state::only_changed(*old(self), *final(self), set![crate::state::Part::Caches]),
    {
        self.caches.revocation.remove(&credential_id);
    }

    /// Caches the total weight of a slice.
    pub fn set_slice_weight_cache(&mut self, slice_id: u64, total_weight: u32)
        ensures
            final(self).caches.slice_weight@ == old(self).caches.slice_weight@.insert(slice_id, total_weight),
            final(self).caches.verification == old(self).caches.verification,
            final(self).caches.metadata == old(self).caches.metadata,
            final(self).caches.revocation == old(self).caches.revocation,
            crate::state::only_changed(*old(self), *final(self), set![crate::state::Part::Caches]),
    {
        self.caches.slice_weight.insert(slice_id, total_weight);
    }

    /// Drops the cached total weight of a slice.
    pub fn invalidate_slice_weight_cache(&mut self, slice_id: u64)
        ensures
            final(self).caches.slice_weight@ == old(self).caches.slice_weight@.remove(slice_id),
            final(self).caches.verification == old(self).caches.verification,
            final(self).caches.metadata == old(self).caches.metadata,
            final(self).caches.revocation == old(self).caches.revocation,
            crate::state::only_changed(*old(self), *final(self), set![crate::state::Part::Caches]),
    {
        self.caches.slice_weight.remove(&slice_id);
    }

    /// Drops the cached verification of one (credential, slice) pair.
    pub fn invalidate_verification_cache(&mut self, credential_id: u64, slice_id: u64)
        ensures
            final(self).caches.verification@ == old(self).caches.verification@.remove(pair_key(credential_id, slice_id)),
            final(self).caches.slice_weight == old(self).caches.slice_weight,
            final(self).caches.metadata == old(self).caches.metadata,
            final(self).caches.revocation == old(self).caches.revocation,
            crate::state::only_changed(*old(self), *final(self), set![crate::state::Part::Caches]),
    {
        self.caches.verification.remove(&pack_pair(credential_id, slice_id));
    }

    /// Drops the cached metadata validation of a credential.
    pub fn invalidate_metadata_cache(&mut self, credential_id: u64)
        ensures
            final(self).caches.metadata@ == old(self).caches.metadata@.remove(credential_id),
            final(self).caches.slice_weight == old(self).caches.slice_weight,
            final(self).caches.verification == old(self).caches.verification,
            final(self).caches.revocation == old(self).caches.revocation,
            crate::state::only_changed(*old(self), *final(self), set![crate::state::Part::Caches]),
    {
        self.caches.metadata.remove(&credential_id);
    }

    /// Appends a credential id to its type's index.
    pub(crate) fn type_index_add(&mut self, credential_type: u32, credential_id: u64)
        ensures
            list_at32(final(self).indexes.type_index@, credential_type)
                == list_at32(old(self).indexes.type_index@, credential_type).push(credential_id),
            only_key_set(old(self).indexes.type_index@, final(self).indexes.type_index@, credential_type),
            final(self).indexes.subject_index == old(self).indexes.subject_index,
            final(self).indexes.subject_credentials == old(self).indexes.subject_credentials,
            final(self).indexes.duplicate_keys == old(self).indexes.duplicate_keys,
            crate::state::only_changed(*old(self), *final(self), set![crate::state::Part::Indexes]),
    {
        push_at32(&mut self.indexes.type_index, credential_type, credential_id);
    }

    /// Removes a credential id from its type's index, storing the list even
    /// when none was stored.
    pub(crate) fn type_index_remove(&mut self, credential_type: u32, credential_id: u64)
        ensures
            list_at32(final(self).indexes.type_index@, credential_type)
                == without_id(list_at32(old(self).indexes.type_index@, credential_type), credential_id),
            only_key_set(old(self).indexes.type_index@, final(self).indexes.type_index@, credential_type),
            final(self).indexes.subject_index == old(self).indexes.subject_index,
            final(self).indexes.subject_credentials == old(self).indexes.subject_credentials,
            final(self).indexes.duplicate_keys == old(self).indexes.duplicate_keys,
            crate::state::only_changed(*old(self), *final(self), set![crate::state::Part::Indexes]),
    {
        let empty: Vec<u64> = Vec::new();
        let list = match self.indexes.type_index.get(&credential_type) {
            Some(v) => v,
            None => &empty,
        };
        assert(list@ == list_at32(old(self).indexes.type_index@, credential_type));
        let kept = remove_id(list, credential_id);
        self.indexes.type_index.insert(credential_type, kept);
        assert(self.indexes.type_index@.remove(credential_type) =~= old(self).indexes.type_index@.remove(credential_type));
    }

    /// Appends a credential id to its subject's index.
    pub(crate) fn subject_index_add(&mut self, subject: Address, credential_id: u64)
        ensures
            list_at(final(self).indexes.subject_index@, subject.0)
                == list_at(old(self).indexes.subject_index@, subject.0).push(credential_id),
            only_key_set(old(self).indexes.subject_index@, final(self).indexes.subject_index@, subject.0),
            final(self).indexes.type_index == old(self).indexes.type_index,
            final(self).indexes.subject_credentials == old(self).indexes.subject_credentials,
            final(self).indexes.duplicate_keys == old(self).indexes.duplicate_keys,
            crate::state::only_changed(*old(self), *final(self), set![crate::state::Part::Indexes]),
    {
        push_at(&mut self.indexes.subject_index, subject.0, credential_id);
    }

    /// Records a version of a credential's metadata, dated `now`.
    pub fn append_credential_version(&mut self, now: u64, credential_id: u64, version: u32, metadata: Vec<u8>, updated_by: Address)
        ensures
            list_at(final(self).cred_data.versions@, credential_id) == list_at(old(self).cred_data.versions@, credential_id).push(
                CredentialVersion { version, metadata, updated_at: now, updated_by }),
            only_key_set(old(self).cred_data.versions@, final(self).cred_data.versions@, credential_id),
            crate::state::cred_data_changed(old(self).cred_data, final(self).cred_data, set![crate::state::CredField::Versions]),
            crate::state::only_changed(*old(self), *final(self), set![crate::state::Part::CredData]),
    {
        push_at(&mut self.cred_data.versions, credential_id, CredentialVersion { version, metadata, updated_at: now, updated_by });
    }

    /// Records a metadata change in the credential's audit trail, dated `now`.
    pub fn record_metadata_audit(&mut self, now: u64, credential_id: u64, updated_by: Address, new_metadata_hash: Vec<u8>)
        ensures
            list_at(final(self).cred_data.audit_trails@, credential_id) == list_at(old(self).cred_data.audit_trails@, credential_id).push(
                AuditEntry { updated_by, timestamp: now, change_summary: new_metadata_hash }),
            only_key_set(old(self).cred_data.audit_trails@, final(self).cred_data.audit_trails@, credential_id),
            crate::state::cred_data_changed(old(self).cred_data, final(self).cred_data, set![crate::state::CredField::AuditTrails]),
            crate::state::only_changed(*old(self), *final(self), set![crate::state::Part::CredData]),
    {
        push_at(&mut self.cred_data.audit_trails, credential_id, AuditEntry { updated_by, timestamp: now, change_summary: new_metadata_hash });
    }

    /// Records a step of a credential's revocation workflow, dated `now`
    /// and with the ledger sequence number.
    pub fn append_revocation_audit(
        &mut self,
        now: u64,
        ledger_sequence: u32,
        credential_id: u64,
        action: RevocationAuditAction,
        actor: Address,
        status: RevocationStatus,
    )
        ensures
            list_at(final(self).cred_data.revocation_audits@, credential_id) == list_at(
                old(self).cred_data.revocation_audits@, credential_id).push(
                RevocationAuditEntry { action, actor, timestamp: now, ledger_sequence, status }),
            only_key_set(old(self).cred_data.revocation_audits@, final(self).cred_data.revocation_audits@, credential_id),
            crate::state::cred_data_changed(old(self).cred_data, final(self).cred_data, set![crate::state::CredField::RevocationAudits]),
            crate::state::only_changed(*old(self), *final(self), set![crate::state::Part::CredData]),
    {
        push_at(&mut self.cred_data.revocation_audits, credential_id,
            RevocationAuditEntry { action, actor, timestamp: now, ledger_sequence, status });
    }
}

} // verus!
