use vstd::prelude::*;
use std::collections::HashMap;
use crate::caches::credential_cache_keys;
use crate::errors::{Abort, ContractError, Fault};
use crate::lists::{none_after, retained_activity, without_id, remove_id};
use crate::rate_limit::{effective_rate_config, rate_limit_step};
use crate::credentials::activity_record;
use crate::state::{only_changed, cred_data_changed, CredField, Part, QuorumProofContract};
use crate::store::{list_at, list_at32, only_key_set, push_at, set_at};
use crate::types::{
    Address, ActivityRecord, ActivityType, Credential, HolderRevocationRequest, RevocationAuditAction,
    RevocationAuditEntry, RevocationStatus,
};

use crate::indexing::lemma_indexes_after_revoke;

verus! {

broadcast use vstd::std_specs::hash::group_hash_axioms;

/// The credential after revocation: revoked and no longer suspended.
pub open spec fn revoked_credential(c: Credential) -> Credential {
    Credential { revoked: true, suspended: false, ..c }
}

/// The per-subject id list after dropping `id`, when a list is stored.
pub open spec fn subject_list_dropped(old: Map<u64, Vec<u64>>, new: Map<u64, Vec<u64>>, subject: u64, id: u64) -> bool {
    if old.contains_key(subject) {
        list_at(new, subject) == without_id(list_at(old, subject), id) && only_key_set(old, new, subject)
    } else {
        new == old
    }
}

/// `b` is `a` after credential `id` was revoked by `revoker` at `now`: the
/// credential is revoked and unsuspended, it leaves its subject's lists and
/// its type's index, its cached verifications are dropped, its revocation is cached, and the
/// subject's activity log records the revocation.
pub open spec fn revocation_applied(a: QuorumProofContract, b: QuorumProofContract, id: u64, revoker: Address, now: u64) -> bool {
    let c = a.credential_at(id);
    &&& b.credentials@ == a.credentials@.update(id - 1, revoked_credential(c))
    &&& subject_list_dropped(a.indexes.subject_credentials@, b.indexes.subject_credentials@, c.subject.0, id)
    &&& list_at(b.indexes.subject_index@, c.subject.0) == without_id(list_at(a.indexes.subject_index@, c.subject.0), id)
    &&& only_key_set(a.indexes.subject_index@, b.indexes.subject_index@, c.subject.0)
    &&& list_at32(b.indexes.type_index@, c.credential_type) == without_id(list_at32(a.indexes.type_index@, c.credential_type), id)
    &&& only_key_set(a.indexes.type_index@, b.indexes.type_index@, c.credential_type)
    &&& b.indexes.duplicate_keys == a.indexes.duplicate_keys
    &&& b.caches.verification@ == a.caches.verification@.remove_keys(credential_cache_keys(id, a.slices.len() as int))
    &&& b.caches.revocation@ == a.caches.revocation@.insert(id, true)
    &&& b.caches.metadata == a.caches.metadata
    &&& b.caches.slice_weight == a.caches.slice_weight
    &&& b.activity_of(c.subject) == retained_activity(a.activity_of(c.subject), now).push(
        activity_record(ActivityType::CredentialRevoked, id, now, revoker, None),
    )
    &&& only_key_set(a.holders.activity@, b.holders.activity@, c.subject.0)
    &&& b.holders.attestor_counts == a.holders.attestor_counts
    &&& b.holders.holder_attestation_counts == a.holders.holder_attestation_counts
    &&& b.holders.slash_counts == a.holders.slash_counts
    &&& b.holders.notifications == a.holders.notifications
    &&& b.holders.reputation_recoveries == a.holders.reputation_recoveries
    &&& b.holders.successful_verifications == a.holders.successful_verifications
    &&& b.holders.failed_verifications == a.holders.failed_verifications
    &&& b.holders.encodings == a.holders.encodings
}

/// Drops `id` from the list stored under `subject`, if a list is stored.
fn drop_from_subject_list(m: &mut HashMap<u64, Vec<u64>>, subject: u64, id: u64)
    ensures
        subject_list_dropped(old(m)@, final(m)@, subject, id),
{
    let filtered = match m.get(&subject) {
        Some(list) => Some(remove_id(list, id)),
        None => None,
    };
    if let Some(f) = filtered {
        set_at(m, subject, f);
    }
}

/// Drops `id` from the list stored under `subject`, storing the result even
/// when no list was stored.
pub fn subject_index_remove(m: &mut HashMap<u64, Vec<u64>>, subject: u64, id: u64)
    ensures
        list_at(final(m)@, subject) == without_id(list_at(old(m)@, subject), id),
        only_key_set(old(m)@, final(m)@, subject),
{
    let filtered = match m.get(&subject) {
        Some(list) => remove_id(list, id),
        None => {
            let e: Vec<u64> = Vec::new();
            assert(without_id(e@, id) == e@);
            e
        },
    };
    set_at(m, subject, filtered);
}

impl QuorumProofContract {
    /// Revokes credential `id` given the subject's prepared activity log.
    fn mark_credential_revoked(&mut self, now: u64, id: u64, revoker: Address, activity: Vec<ActivityRecord>)
        requires
            old(self).wf(),
            old(self).has_credential(id),
            activity@ == retained_activity(old(self).activity_of(old(self).credential_at(id).subject), now).push(
                activity_record(ActivityType::CredentialRevoked, id, now, revoker, None),
            ),
        ensures
            final(self).wf(),
            revocation_applied(*old(self), *final(self), id, revoker, now),
            only_changed(*old(self), *final(self), set![Part::Credentials, Part::Indexes, Part::Caches, Part::Holders]),
    {
        let i = (id - 1) as usize;
        let subject = self.credentials[i].subject;
        {
            let c = &mut self.credentials[i];
            c.revoked = true;
            c.suspended = false;
        }
        assert(self.credentials@ =~= old(self).credentials@.update(id - 1, revoked_credential(old(self).credential_at(id))));
        drop_from_subject_list(&mut self.indexes.subject_credentials, subject.0, id);
        subject_index_remove(&mut self.indexes.subject_index, subject.0, id);
        let credential_type = self.credentials[i].credential_type;
        self.type_index_remove(credential_type, id);
        proof {
            lemma_indexes_after_revoke(old(self).credentials@, old(self).indexes, self.credentials@, self.indexes, i as int);
        }
        Self::invalidate_verification_caches_for_credential(&mut self.caches, self.slices.len() as u64, id);
        self.caches.revocation.insert(id, true);
        set_at(&mut self.holders.activity, subject.0, activity);
    }

    /// The first reason to refuse `revoke_credential`; `None` when it succeeds.
    pub open spec fn revoke_credential_failure(&self, now: u64, issuer: Address, id: u64) -> Option<Fault> {
        if self.config.paused {
            Some(Fault::Contract(ContractError::ContractPaused))
        } else if rate_limit_step(
            effective_rate_config(self.config.rate_limit_config),
            if self.rate_limits@.contains_key(issuer.0) { Some(self.rate_limits@[issuer.0]) } else { None },
            now,
        ) is None {
            Some(Fault::Contract(ContractError::RateLimitExceeded))
        } else if !self.has_credential(id) {
            Some(Fault::Contract(ContractError::CredentialNotFound))
        } else if self.credential_at(id).issuer != issuer {
            Some(Fault::Abort(Abort::Unauthorized))
        } else if self.credential_at(id).revoked {
            Some(Fault::Abort(Abort::CredentialRevoked))
        } else if self.credential_at(id).expires_at matches Some(e) && now >= e {
            Some(Fault::Abort(Abort::CredentialExpired))
        } else if !none_after(self.activity_of(self.credential_at(id).subject), now) {
            Some(Fault::Abort(Abort::ArithmeticOverflow))
        } else {
            None
        }
    }

    /// Revokes a credential. Only its issuer may, once, before it expires; the
    /// issuer is rate limited.
    pub fn revoke_credential(&mut self, now: u64, issuer: Address, credential_id: u64) -> (r: Result<(), Fault>)
        requires
            old(self).wf(),
        ensures
            final(self).wf(),
            r is Err <==> old(self).revoke_credential_failure(now, issuer, credential_id) is Some,
            r matches Err(f) ==> old(self).revoke_credential_failure(now, issuer, credential_id) == Some(f)
                && *final(self) == *old(self),
            r is Ok ==> revocation_applied(*old(self), *final(self), credential_id, issuer, now)
                && final(self).rate_limits@ == old(self).rate_limits@.insert(
                    issuer.0,
                    rate_limit_step(
                        effective_rate_config(old(self).config.rate_limit_config),
                        if old(self).rate_limits@.contains_key(issuer.0) { Some(old(self).rate_limits@[issuer.0]) } else { None },
                        now,
                    )->Some_0,
                )
                && only_changed(*old(self), *final(self), set![Part::RateLimits, Part::Credentials, Part::Indexes, Part::Caches, Part::Holders]),
    {
        self.require_not_paused()?;
        let rate = self.next_rate_limit_state(issuer, now)?;
        let i = match self.find_credential(credential_id) {
            Some(i) => i,
            None => { return Err(Fault::Contract(ContractError::CredentialNotFound)); },
        };
        if self.credentials[i].issuer != issuer {
            return Err(Fault::Abort(Abort::Unauthorized));
        }
        if self.credentials[i].revoked {
            return Err(Fault::Abort(Abort::CredentialRevoked));
        }
        if let Some(e) = self.credentials[i].expires_at {
            if !(now < e) {
                return Err(Fault::Abort(Abort::CredentialExpired));
            }
        }
        let subject = self.credentials[i].subject;
        let activity = self.prepare_activity(now, subject, ActivityType::CredentialRevoked, credential_id, issuer, None)?;
        self.rate_limits.insert(issuer.0, rate);
        self.mark_credential_revoked(now, credential_id, issuer, activity);
        Ok(())
    }

    /// The first reason to refuse `revoke_consent`; `None` when it succeeds.
    pub open spec fn revoke_consent_failure(&self, now: u64, holder: Address, id: u64) -> Option<Fault> {
        if self.config.paused {
            Some(Fault::Contract(ContractError::ContractPaused))
        } else if rate_limit_step(
            effective_rate_config(self.config.rate_limit_config),
            if self.rate_limits@.contains_key(holder.0) { Some(self.rate_limits@[holder.0]) } else { None },
            now,
        ) is None {
            Some(Fault::Contract(ContractError::RateLimitExceeded))
        } else if !self.has_credential(id) {
            Some(Fault::Contract(ContractError::CredentialNotFound))
        } else if self.credential_at(id).subject != holder {
            Some(Fault::Abort(Abort::Unauthorized))
        } else if self.credential_at(id).revoked {
            Some(Fault::Abort(Abort::CredentialRevoked))
        } else if !none_after(self.activity_of(holder), now) {
            Some(Fault::Abort(Abort::ArithmeticOverflow))
        } else {
            None
        }
    }

    /// The holder withdraws consent: the credential is revoked and leaves the
    /// holder's lists and its type's index; its cached verifications are dropped and its
    /// revocation is cached.
    pub fn revoke_consent(&mut self, now: u64, holder: Address, credential_id: u64) -> (r: Result<(), Fault>)
        requires
            old(self).wf(),
        ensures
            final(self).wf(),
            r is Err <==> old(self).revoke_consent_failure(now, holder, credential_id) is Some,
            r matches Err(f) ==> old(self).revoke_consent_failure(now, holder, credential_id) == Some(f)
                && *final(self) == *old(self),
            r is Ok ==> {
                let a = *old(self);
                let b = *final(self);
                &&& b.credentials@ == a.credentials@.update(credential_id - 1, revoked_credential(a.credential_at(credential_id)))
                &&& subject_list_dropped(a.indexes.subject_credentials@, b.indexes.subject_credentials@, holder.0, credential_id)
                &&& list_at(b.indexes.subject_index@, holder.0) == without_id(list_at(a.indexes.subject_index@, holder.0), credential_id)
                &&& only_key_set(a.indexes.subject_index@, b.indexes.subject_index@, holder.0)
                &&& list_at32(b.indexes.type_index@, a.credential_at(credential_id).credential_type)
                    == without_id(list_at32(a.indexes.type_index@, a.credential_at(credential_id).credential_type), credential_id)
                &&& only_key_set(a.indexes.type_index@, b.indexes.type_index@, a.credential_at(credential_id).credential_type)
                &&& b.indexes.duplicate_keys == a.indexes.duplicate_keys
                &&& b.caches.verification@ == a.caches.verification@.remove_keys(
                    credential_cache_keys(credential_id, a.slices.len() as int),
                )
                &&& b.caches.revocation@ == a.caches.revocation@.insert(credential_id, true)
                &&& b.caches.metadata == a.caches.metadata
                &&& b.caches.slice_weight == a.caches.slice_weight
                &&& b.activity_of(holder) == retained_activity(a.activity_of(holder), now).push(
                    activity_record(ActivityType::CredentialRevoked, credential_id, now, holder, None),
                )
                &&& only_key_set(a.holders.activity@, b.holders.activity@, holder.0)
                &&& b.holders.attestor_counts == a.holders.attestor_counts
                &&& b.holders.holder_attestation_counts == a.holders.holder_attestation_counts
                &&& b.holders.slash_counts == a.holders.slash_counts
                &&& b.holders.notifications == a.holders.notifications
                &&& b.holders.reputation_recoveries == a.holders.reputation_recoveries
                &&& b.holders.successful_verifications == a.holders.successful_verifications
                &&& b.holders.failed_verifications == a.holders.failed_verifications
                &&& b.holders.encodings == a.holders.encodings
                &&& b.rate_limits@ == a.rate_limits@.insert(
                    holder.0,
                    rate_limit_step(
                        effective_rate_config(a.config.rate_limit_config),
                        if a.rate_limits@.contains_key(holder.0) { Some(a.rate_limits@[holder.0]) } else { None },
                        now,
                    )->Some_0,
                )
                &&& only_changed(a, b, set![Part::RateLimits, Part::Credentials, Part::Indexes, Part::Caches, Part::Holders])
            },
    {
        self.require_not_paused()?;
        let rate = self.next_rate_limit_state(holder, now)?;
        let i = match self.find_credential(credential_id) {
            Some(i) => i,
            None => { return Err(Fault::Contract(ContractError::CredentialNotFound)); },
        };
        if self.credentials[i].subject != holder {
            return Err(Fault::Abort(Abort::Unauthorized));
        }
        if self.credentials[i].revoked {
            return Err(Fault::Abort(Abort::CredentialRevoked));
        }
        let activity = self.prepare_activity(now, holder, ActivityType::CredentialRevoked, credential_id, holder, None)?;
        self.rate_limits.insert(holder.0, rate);
        {
            let c = &mut self.credentials[i];
            c.revoked = true;
            c.suspended = false;
        }
        assert(self.credentials@ =~= old(self).credentials@.update(
            credential_id - 1,
            revoked_credential(old(self).credential_at(credential_id)),
        ));
        drop_from_subject_list(&mut self.indexes.subject_credentials, holder.0, credential_id);
        subject_index_remove(&mut self.indexes.subject_index, holder.0, credential_id);
        let credential_type = self.credentials[i].credential_type;
        self.type_index_remove(credential_type, credential_id);
        proof {
            lemma_indexes_after_revoke(old(self).credentials@, old(self).indexes, self.credentials@, self.indexes, i as int);
        }
        Self::invalidate_verification_caches_for_credential(&mut self.caches, self.slices.len() as u64, credential_id);
        self.caches.revocation.insert(credential_id, true);
        set_at(&mut self.holders.activity, holder.0, activity);
        Ok(())
    }

    /// The holder's revocation request of a credential, if any.
    pub fn get_revocation_request(&self, credential_id: u64) -> (r: Option<HolderRevocationRequest>)
        ensures
            r == (if self.cred_data.revocation_requests@.contains_key(credential_id) {
                Some(self.cred_data.revocation_requests@[credential_id])
            } else {
                None
            }),
    {
        match self.cred_data.revocation_requests.get(&credential_id) {
            Some(r) => Some(*r),
            None => None,
        }
    }

    /// The revocation audit trail of a credential.
    pub fn get_revocation_audit_trail(&self, credential_id: u64) -> (t: &[RevocationAuditEntry])
        ensures
            t@ == list_at(self.cred_data.revocation_audits@, credential_id),
    {
        match self.cred_data.revocation_audits.get(&credential_id) {
            Some(v) => v.as_slice(),
            None => &[],
        }
    }

    /// The first reason to refuse `request_revocation`; `None` when it succeeds.
    pub open spec fn request_revocation_failure(&self, holder: Address, id: u64) -> Option<Fault> {
        if self.config.paused {
            Some(Fault::Contract(ContractError::ContractPaused))
        } else if !self.has_credential(id) {
            Some(Fault::Contract(ContractError::CredentialNotFound))
        } else if self.credential_at(id).subject != holder {
            Some(Fault::Contract(ContractError::PermissionDenied))
        } else if self.credential_at(id).revoked {
            Some(Fault::Abort(Abort::CredentialRevoked))
        } else if self.cred_data.revocation_requests@.contains_key(id)
            && self.cred_data.revocation_requests@[id].status == RevocationStatus::Pending {
            Some(Fault::Abort(Abort::InvalidState))
        } else {
            None
        }
    }

    /// The subject asks its issuer to revoke a credential; at most one request
    /// is pending at a time.
    pub fn request_revocation(&mut self, now: u64, ledger_sequence: u32, holder: Address, credential_id: u64) -> (r: Result<(), Fault>)
        requires
            old(self).wf(),
        ensures
            final(self).wf(),
            r is Err <==> old(self).request_revocation_failure(holder, credential_id) is Some,
            r matches Err(f) ==> old(self).request_revocation_failure(holder, credential_id) == Some(f)
                && *final(self) == *old(self),
            r is Ok ==> final(self).cred_data.revocation_requests@ == old(self).cred_data.revocation_requests@.insert(
                credential_id,
                HolderRevocationRequest {
                    credential_id,
                    holder,
                    requested_at: now,
                    requested_ledger: ledger_sequence,
                    status: RevocationStatus::Pending,
                },
            ) && list_at(final(self).cred_data.revocation_audits@, credential_id) == list_at(
                old(self).cred_data.revocation_audits@,
                credential_id,
            ).push(RevocationAuditEntry {
                action: RevocationAuditAction::RequestSubmitted,
                actor: holder,
                timestamp: now,
                ledger_sequence,
                status: RevocationStatus::Pending,
            }) && only_key_set(old(self).cred_data.revocation_audits@, final(self).cred_data.revocation_audits@, credential_id)
                && cred_data_changed(old(self).cred_data, final(self).cred_data,
                    set![CredField::RevocationRequests, CredField::RevocationAudits])
                && only_changed(*old(self), *final(self), set![Part::CredData]),
    {
        self.require_not_paused()?;
        let i = match self.find_credential(credential_id) {
            Some(i) => i,
            None => { return Err(Fault::Contract(ContractError::CredentialNotFound)); },
        };
        if self.credentials[i].subject != holder {
            return Err(Fault::Contract(ContractError::PermissionDenied));
        }
        if self.credentials[i].revoked {
            return Err(Fault::Abort(Abort::CredentialRevoked));
        }
        if let Some(existing) = self.cred_data.revocation_requests.get(&credential_id) {
            if existing.status == RevocationStatus::Pending {
                return Err(Fault::Abort(Abort::InvalidState));
            }
        }
        self.cred_data.revocation_requests.insert(
            credential_id,
            HolderRevocationRequest {
                credential_id,
                holder,
                requested_at: now,
                requested_ledger: ledger_sequence,
                status: RevocationStatus::Pending,
            },
        );
        push_at(
            &mut self.cred_data.revocation_audits,
            credential_id,
            RevocationAuditEntry {
                action: RevocationAuditAction::RequestSubmitted,
                actor: holder,
                timestamp: now,
                ledger_sequence,
                status: RevocationStatus::Pending,
            },
        );
        Ok(())
    }

    /// The first reason to refuse `approve_revocation` or `deny_revocation`
    /// before the decision itself; `None` when the decision is taken.
    pub open spec fn decide_revocation_failure(&self, issuer: Address, id: u64) -> Option<Fault> {
        if self.config.paused {
            Some(Fault::Contract(ContractError::ContractPaused))
        } else if !self.has_credential(id) {
            Some(Fault::Contract(ContractError::CredentialNotFound))
        } else if self.credential_at(id).issuer != issuer {
            Some(Fault::Contract(ContractError::PermissionDenied))
        } else if !self.cred_data.revocation_requests@.contains_key(id) {
            Some(Fault::Contract(ContractError::RevocationRequestNotFound))
        } else if self.cred_data.revocation_requests@[id].status != RevocationStatus::Pending {
            Some(Fault::Contract(ContractError::RevocationNotPending))
        } else {
            None
        }
    }

    /// The issuer approves a pending revocation request; the credential is
    /// revoked unless it already was.
    pub fn approve_revocation(&mut self, now: u64, ledger_sequence: u32, issuer: Address, credential_id: u64) -> (r: Result<(), Fault>)
        requires
            old(self).wf(),
        ensures
            final(self).wf(),
            ({
                let failure = if old(self).decide_revocation_failure(issuer, credential_id) is Some {
                    old(self).decide_revocation_failure(issuer, credential_id)
                } else if !old(self).credential_at(credential_id).revoked
                    && !none_after(old(self).activity_of(old(self).credential_at(credential_id).subject), now) {
                    Some(Fault::Abort(Abort::ArithmeticOverflow))
                } else {
                    None
                };
                &&& r is Err <==> failure is Some
                &&& r matches Err(f) ==> failure == Some(f) && *final(self) == *old(self)
            }),
            r is Ok ==> {
                let a = *old(self);
                let b = *final(self);
                let req = a.cred_data.revocation_requests@[credential_id];
                &&& b.cred_data.revocation_requests@ == a.cred_data.revocation_requests@.insert(
                    credential_id,
                    HolderRevocationRequest { status: RevocationStatus::Approved, ..req },
                )
                &&& list_at(b.cred_data.revocation_audits@, credential_id) == list_at(a.cred_data.revocation_audits@, credential_id).push(
                    RevocationAuditEntry {
                        action: RevocationAuditAction::Approved,
                        actor: issuer,
                        timestamp: now,
                        ledger_sequence,
                        status: RevocationStatus::Approved,
                    },
                )
                &&& only_key_set(a.cred_data.revocation_audits@, b.cred_data.revocation_audits@, credential_id)
                &&& cred_data_changed(a.cred_data, b.cred_data, set![CredField::RevocationRequests, CredField::RevocationAudits])
                &&& (a.credential_at(credential_id).revoked ==> only_changed(a, b, set![Part::CredData]))
                &&& (!a.credential_at(credential_id).revoked ==> revocation_applied(a, b, credential_id, issuer, now)
                    && only_changed(a, b, set![Part::CredData, Part::Credentials, Part::Indexes, Part::Caches, Part::Holders]))
            },
    {
        self.require_not_paused()?;
        let i = match self.find_credential(credential_id) {
            Some(i) => i,
            None => { return Err(Fault::Contract(ContractError::CredentialNotFound)); },
        };
        if self.credentials[i].issuer != issuer {
            return Err(Fault::Contract(ContractError::PermissionDenied));
        }
        let req = match self.cred_data.revocation_requests.get(&credential_id) {
            Some(r) => *r,
            None => { return Err(Fault::Contract(ContractError::RevocationRequestNotFound)); },
        };
        if req.status != RevocationStatus::Pending {
            return Err(Fault::Contract(ContractError::RevocationNotPending));
        }
        let already_revoked = self.credentials[i].revoked;
        let subject = self.credentials[i].subject;
        let activity = if !already_revoked {
            Some(self.prepare_activity(now, subject, ActivityType::CredentialRevoked, credential_id, issuer, None)?)
        } else {
            None
        };
        self.cred_data.revocation_requests.insert(
            credential_id,
            HolderRevocationRequest { status: RevocationStatus::Approved, ..req },
        );
        push_at(
            &mut self.cred_data.revocation_audits,
            credential_id,
            RevocationAuditEntry {
                action: RevocationAuditAction::Approved,
                actor: issuer,
                timestamp: now,
                ledger_sequence,
                status: RevocationStatus::Approved,
            },
        );
        if let Some(act) = activity {
            self.mark_credential_revoked(now, credential_id, issuer, act);
        }
        Ok(())
    }

    /// The issuer denies a pending revocation request; the credential stays active.
    pub fn deny_revocation(&mut self, now: u64, ledger_sequence: u32, issuer: Address, credential_id: u64) -> (r: Result<(), Fault>)
        requires
            old(self).wf(),
        ensures
            final(self).wf(),
            r is Err <==> old(self).decide_revocation_failure(issuer, credential_id) is Some,
            r matches Err(f) ==> old(self).decide_revocation_failure(issuer, credential_id) == Some(f)
                && *final(self) == *old(self),
            r is Ok ==> {
                let a = *old(self);
                let b = *final(self);
                let req = a.cred_data.revocation_requests@[credential_id];
                &&& b.cred_data.revocation_requests@ == a.cred_data.revocation_requests@.insert(
                    credential_id,
                    HolderRevocationRequest { status: RevocationStatus::Denied, ..req },
                )
                &&& list_at(b.cred_data.revocation_audits@, credential_id) == list_at(a.cred_data.revocation_audits@, credential_id).push(
                    RevocationAuditEntry {
                        action: RevocationAuditAction::Denied,
                        actor: issuer,
                        timestamp: now,
                        ledger_sequence,
                        status: RevocationStatus::Denied,
                    },
                )
                &&& only_key_set(a.cred_data.revocation_audits@, b.cred_data.revocation_audits@, credential_id)
                &&& cred_data_changed(a.cred_data, b.cred_data, set![CredField::RevocationRequests, CredField::RevocationAudits])
                &&& only_changed(a, b, set![Part::CredData])
            },
    {
        self.require_not_paused()?;
        let i = match self.find_credential(credential_id) {
            Some(i) => i,
            None => { return Err(Fault::Contract(ContractError::CredentialNotFound)); },
        };
        if self.credentials[i].issuer != issuer {
            return Err(Fault::Contract(ContractError::PermissionDenied));
        }
        let req = match self.cred_data.revocation_requests.get(&credential_id) {
            Some(r) => *r,
            None => { return Err(Fault::Contract(ContractError::RevocationRequestNotFound)); },
        };
        if req.status != RevocationStatus::Pending {
            return Err(Fault::Contract(ContractError::RevocationNotPending));
        }
        self.cred_data.revocation_requests.insert(
            credential_id,
            HolderRevocationRequest { status: RevocationStatus::Denied, ..req },
        );
        push_at(
            &mut self.cred_data.revocation_audits,
            credential_id,
            RevocationAuditEntry {
                action: RevocationAuditAction::Denied,
                actor: issuer,
                timestamp: now,
                ledger_sequence,
                status: RevocationStatus::Denied,
            },
        );
        Ok(())
    }
}

} // verus!
