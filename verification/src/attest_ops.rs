use vstd::prelude::*;
use crate::caches::credential_cache_keys;
use crate::checks::{timestamp_in_range, MAX_BATCH_SIZE};
use crate::credentials::activity_record;
use crate::errors::{Abort, ContractError, Fault};
use crate::lists::{none_after, retained_activity, retain_recent};
use crate::quorum::{attested_by, fork_detected, fork_spec, has_attested, record_expired};
use crate::state::{pack_pair, pair_key, only_changed, cred_data_changed, CredField, Part, QuorumProofContract};
use crate::store::{count_at, list_at, only_key_set, read_count, set_at, copy_bytes, copy_page, page_of};
use crate::types::{
    Address, ActivityRecord, ActivityType, AttestationCondition, AttestationEvidence, AttestationRecord,
    AttestationTimeWindow, ClaimType, ConsensusDecision, HolderNotification,
};

verus! {

broadcast use vstd::std_specs::hash::group_hash_axioms;

/// The records with every record of `attestor` given the expiry `e`.
pub open spec fn renewed_records(s: Seq<AttestationRecord>, attestor: Address, e: u64) -> Seq<AttestationRecord> {
    Seq::new(s.len(), |i: int| if s[i].attestor == attestor {
        AttestationRecord { expires_at: Some(e), ..s[i] }
    } else {
        s[i]
    })
}

/// `i` is the position of the first record made by `a`.
pub open spec fn is_first_record(s: Seq<AttestationRecord>, a: Address, i: int) -> bool {
    &&& 0 <= i < s.len()
    &&& s[i].attestor == a
    &&& forall|k: int| 0 <= k < i ==> #[trigger] s[k].attestor != a
}

/// Every condition's value equals the value given at its position, and
/// as many values are given as there are conditions; no conditions at all
/// are always met.
pub open spec fn conditions_met(conditions: Seq<AttestationCondition>, values: Seq<Vec<u8>>) -> bool {
    conditions.len() == 0 || (values.len() == conditions.len()
        && forall|i: int| 0 <= i < conditions.len() ==> #[trigger] conditions[i].value@ == values[i]@)
}

impl QuorumProofContract {
    /// Whether credential `credential_id` is revoked. A cached answer is
    /// given as it stands; otherwise the answer is cached.
    pub fn is_revoked(&mut self, credential_id: u64) -> (r: Result<bool, Fault>)
        ensures
            old(self).caches.revocation@.contains_key(credential_id) ==> r == Ok::<bool, Fault>(
                old(self).caches.revocation@[credential_id]) && *final(self) == *old(self),
            !old(self).caches.revocation@.contains_key(credential_id) && !old(self).has_credential(credential_id)
                ==> r == Err::<bool, Fault>(Fault::Contract(ContractError::CredentialNotFound)) && *final(self) == *old(self),
            !old(self).caches.revocation@.contains_key(credential_id) && old(self).has_credential(credential_id) ==> {
                let revoked = old(self).credential_at(credential_id).revoked;
                &&& r == Ok::<bool, Fault>(revoked)
                &&& final(self).caches.revocation@ == old(self).caches.revocation@.insert(credential_id, revoked)
                &&& final(self).caches.verification == old(self).caches.verification
                &&& final(self).caches.metadata == old(self).caches.metadata
                &&& final(self).caches.slice_weight == old(self).caches.slice_weight
                &&& only_changed(*old(self), *final(self), set![Part::Caches])
            },
    {
        if let Some(b) = self.caches.revocation.get(&credential_id) {
            return Ok(*b);
        }
        let i = match self.find_credential(credential_id) {
            Some(i) => i,
            None => { return Err(Fault::Contract(ContractError::CredentialNotFound)); },
        };
        let revoked = self.credentials[i].revoked;
        self.caches.revocation.insert(credential_id, revoked);
        Ok(revoked)
    }

    /// Whether credential `credential_id` is suspended.
    pub fn is_suspended(&self, credential_id: u64) -> (r: Result<bool, Fault>)
        ensures
            r == (if self.has_credential(credential_id) {
                Ok::<bool, Fault>(self.credential_at(credential_id).suspended)
            } else {
                Err(Fault::Contract(ContractError::CredentialNotFound))
            }),
    {
        match self.find_credential(credential_id) {
            Some(i) => Ok(self.credentials[i].suspended),
            None => Err(Fault::Contract(ContractError::CredentialNotFound)),
        }
    }

    /// The attestors of a credential, in attestation order.
    pub fn get_attestors(&self, credential_id: u64) -> (v: Vec<Address>)
        ensures
            v.len() == self.records_of(credential_id).len(),
            forall|k: int| 0 <= k < v.len() ==> #[trigger] v@[k] == self.records_of(credential_id)[k].attestor,
    {
        let empty: Vec<AttestationRecord> = Vec::new();
        let records = match self.attestations.get(&credential_id) {
            Some(v) => v,
            None => &empty,
        };
        let mut out: Vec<Address> = Vec::new();
        let mut k: usize = 0;
        while k < records.len()
            invariant
                records@ == self.records_of(credential_id),
                k <= records.len(),
                out.len() == k,
                forall|j: int| 0 <= j < k ==> #[trigger] out@[j] == records@[j].attestor,
            decreases records.len() - k,
        {
            out.push(records[k].attestor);
            k += 1;
        }
        out
    }

    /// The attestation records of a credential, with their expiries.
    pub fn get_attestation_records(&self, credential_id: u64) -> (t: &[AttestationRecord])
        ensures
            t@ == self.records_of(credential_id),
    {
        match self.attestations.get(&credential_id) {
            Some(v) => v.as_slice(),
            None => &[],
        }
    }

    /// The number of attestation records of a credential (saturating at `u32::MAX`).
    pub fn get_attestation_count(&self, credential_id: u64) -> (n: u32)
        ensures
            n == (if self.records_of(credential_id).len() <= u32::MAX { self.records_of(credential_id).len() } else { u32::MAX as nat }),
    {
        let len: usize = match self.attestations.get(&credential_id) {
            Some(v) => v.len(),
            None => 0,
        };
        if len <= u32::MAX as usize { len as u32 } else { u32::MAX }
    }

    /// Whether the first attestation of `attestor` on the credential has expired at `now`.
    pub fn is_single_attestation_expired(&self, now: u64, credential_id: u64, attestor: Address) -> (r: Result<bool, Fault>)
        ensures
            !self.has_credential(credential_id) ==> r == Err::<bool, Fault>(Fault::Contract(ContractError::CredentialNotFound)),
            self.has_credential(credential_id) && !has_attested(self.records_of(credential_id), attestor)
                ==> r == Err::<bool, Fault>(Fault::Abort(Abort::AttestationNotFound)),
            self.has_credential(credential_id) && has_attested(self.records_of(credential_id), attestor)
                ==> (r matches Ok(b) && exists|i: int| #[trigger] is_first_record(self.records_of(credential_id), attestor, i)
                    && b == record_expired(self.records_of(credential_id)[i], now)),
    {
        if self.find_credential(credential_id).is_none() {
            return Err(Fault::Contract(ContractError::CredentialNotFound));
        }
        let empty: Vec<AttestationRecord> = Vec::new();
        let records = match self.attestations.get(&credential_id) {
            Some(v) => v,
            None => &empty,
        };
        assert(records@ == self.records_of(credential_id));
        let mut k: usize = 0;
        while k < records.len()
            invariant
                k <= records.len(),
                records@ == self.records_of(credential_id),
                self.has_credential(credential_id),
                forall|j: int| 0 <= j < k ==> #[trigger] records@[j].attestor != attestor,
            decreases records.len() - k,
        {
            if records[k].attestor == attestor {
                assert(has_attested(records@, attestor)) by {
                    assert(records@[k as int].attestor == attestor);
                }
                let expired = match records[k].expires_at {
                    Some(e) => now >= e,
                    None => false,
                };
                proof {
                    assert(is_first_record(records@, attestor, k as int));
                }
                return Ok(expired);
            }
            k += 1;
        }
        Err(Fault::Abort(Abort::AttestationNotFound))
    }

    /// The first reason to refuse `renew_attestation`; `None` when it succeeds.
    pub open spec fn renew_attestation_failure(&self, now: u64, attestor: Address, cred: u64, new_expires_at: u64) -> Option<Fault> {
        if self.config.paused {
            Some(Fault::Contract(ContractError::ContractPaused))
        } else if !self.has_credential(cred) {
            Some(Fault::Contract(ContractError::CredentialNotFound))
        } else if self.credential_at(cred).revoked {
            Some(Fault::Abort(Abort::CredentialRevoked))
        } else if self.credential_at(cred).suspended {
            Some(Fault::Abort(Abort::CredentialSuspended))
        } else if new_expires_at <= now {
            Some(Fault::Abort(Abort::InvalidArgument))
        } else if !has_attested(self.records_of(cred), attestor) {
            Some(Fault::Abort(Abort::AttestationNotFound))
        } else if !none_after(self.activity_of(self.credential_at(cred).subject), now) {
            Some(Fault::Abort(Abort::ArithmeticOverflow))
        } else {
            None
        }
    }

    /// Extends the attestor's attestation of a credential to `new_expires_at`,
    /// which must lie after `now`. The credential's cached verifications are
    /// dropped and the holder's activity log records the renewal.
    pub fn renew_attestation(&mut self, now: u64, attestor: Address, credential_id: u64, new_expires_at: u64) -> (r: Result<(), Fault>)
        requires
            old(self).wf(),
        ensures
            final(self).wf(),
            r is Err <==> old(self).renew_attestation_failure(now, attestor, credential_id, new_expires_at) is Some,
            r matches Err(f) ==> old(self).renew_attestation_failure(now, attestor, credential_id, new_expires_at) == Some(f)
                && *final(self) == *old(self),
            r is Ok ==> {
                let subject = old(self).credential_at(credential_id).subject;
                &&& final(self).records_of(credential_id) == renewed_records(old(self).records_of(credential_id), attestor, new_expires_at)
                &&& only_key_set(old(self).attestations@, final(self).attestations@, credential_id)
                &&& final(self).caches.verification@ == old(self).caches.verification@.remove_keys(
                    credential_cache_keys(credential_id, old(self).slices.len() as int))
                &&& final(self).caches.revocation == old(self).caches.revocation
                &&& final(self).caches.metadata == old(self).caches.metadata
                &&& final(self).caches.slice_weight == old(self).caches.slice_weight
                &&& final(self).activity_of(subject) == retained_activity(old(self).activity_of(subject), now).push(
                    activity_record(ActivityType::AttestationExpired, credential_id, now, attestor, None))
                &&& only_key_set(old(self).holders.activity@, final(self).holders.activity@, subject.0)
                &&& final(self).holders.attestor_counts == old(self).holders.attestor_counts
                &&& final(self).holders.holder_attestation_counts == old(self).holders.holder_attestation_counts
                &&& final(self).holders.slash_counts == old(self).holders.slash_counts
                &&& final(self).holders.notifications == old(self).holders.notifications
                &&& final(self).holders.reputation_recoveries == old(self).holders.reputation_recoveries
                &&& final(self).holders.successful_verifications == old(self).holders.successful_verifications
                &&& final(self).holders.failed_verifications == old(self).holders.failed_verifications
                &&& final(self).holders.encodings == old(self).holders.encodings
                &&& only_changed(*old(self), *final(self), set![Part::Attestations, Part::Caches, Part::Holders])
            },
    {
        self.require_not_paused()?;
        let i = match self.find_credential(credential_id) {
            Some(i) => i,
            None => { return Err(Fault::Contract(ContractError::CredentialNotFound)); },
        };
        if self.credentials[i].revoked {
            return Err(Fault::Abort(Abort::CredentialRevoked));
        }
        if self.credentials[i].suspended {
            return Err(Fault::Abort(Abort::CredentialSuspended));
        }
        if new_expires_at <= now {
            return Err(Fault::Abort(Abort::InvalidArgument));
        }
        let subject = self.credentials[i].subject;
        let found = match self.attestations.get(&credential_id) {
            Some(v) => attested_by(v, attestor),
            None => false,
        };
        if !found {
            return Err(Fault::Abort(Abort::AttestationNotFound));
        }
        let empty_log: Vec<ActivityRecord> = Vec::new();
        let log = match self.holders.activity.get(&subject.0) {
            Some(v) => v,
            None => &empty_log,
        };
        assert(log@ == old(self).activity_of(subject));
        let mut retained = retain_recent(log, now)?;
        let mut list = match self.attestations.remove(&credential_id) {
            Some(v) => v,
            None => Vec::new(),
        };
        assert(list@ == old(self).records_of(credential_id));
        let ghost initial = list@;
        let mut k: usize = 0;
        while k < list.len()
            invariant
                k <= list.len(),
                list.len() == initial.len(),
                forall|j: int| 0 <= j < k ==> #[trigger] list@[j] == renewed_records(initial, attestor, new_expires_at)[j],
                forall|j: int| k <= j < list.len() ==> #[trigger] list@[j] == initial[j],
            decreases list.len() - k,
        {
            if list[k].attestor == attestor {
                list[k].expires_at = Some(new_expires_at);
            }
            k += 1;
        }
        assert(list@ =~= renewed_records(initial, attestor, new_expires_at));
        self.attestations.insert(credential_id, list);
        assert(self.attestations@.remove(credential_id) =~= old(self).attestations@.remove(credential_id));
        Self::invalidate_verification_caches_for_credential(&mut self.caches, self.slices.len() as u64, credential_id);
        retained.push(ActivityRecord {
            activity_type: ActivityType::AttestationExpired,
            credential_id,
            timestamp: now,
            actor: attestor,
            slice_id: None,
        });
        set_at(&mut self.holders.activity, subject.0, retained);
        Ok(())
    }

    /// The number of attestations `address` has made.
    pub fn get_attestor_count(&self, address: Address) -> (n: u64)
        ensures
            n == count_at(self.holders.attestor_counts@, address.0),
    {
        read_count(&self.holders.attestor_counts, address.0)
    }

    /// The attestor's reputation: the number of attestations it has made.
    pub fn get_attestor_reputation(&self, attestor: Address) -> (n: u64)
        ensures
            n == count_at(self.holders.attestor_counts@, attestor.0),
    {
        read_count(&self.holders.attestor_counts, attestor.0)
    }

    /// The number of attestations the holder's credentials have received.
    pub fn get_holder_attestation_count(&self, holder: Address) -> (n: u64)
        ensures
            n == count_at(self.holders.holder_attestation_counts@, holder.0),
    {
        read_count(&self.holders.holder_attestation_counts, holder.0)
    }

    /// The attestation notifications the holder has received, oldest first.
    pub fn get_notification_history(&self, holder: Address) -> (v: Vec<HolderNotification>)
        ensures
            v@ == list_at(self.holders.notifications@, holder.0),
    {
        match self.holders.notifications.get(&holder.0) {
            Some(v) => {
                let r = v.clone();
                assert(r@ =~= v@);
                r
            },
            None => Vec::new(),
        }
    }

    /// Whether a fork would arise if `new_attestor` attested `new_value`:
    /// the attestor is in the slice and a member has attested the other value.
    pub fn detect_fork(&self, credential_id: u64, slice_id: u64, new_attestor: Address, new_value: bool) -> (r: Result<bool, Fault>)
        ensures
            r == (if self.has_slice(slice_id) {
                Ok::<bool, Fault>(fork_spec(self.slice_at(slice_id), self.records_of(credential_id), new_attestor, new_value))
            } else {
                Err(Fault::Contract(ContractError::SliceNotFound))
            }),
    {
        let si = match self.find_slice(slice_id) {
            Some(si) => si,
            None => { return Err(Fault::Contract(ContractError::SliceNotFound)); },
        };
        let empty: Vec<AttestationRecord> = Vec::new();
        let records = match self.attestations.get(&credential_id) {
            Some(v) => v,
            None => &empty,
        };
        assert(records@ == self.records_of(credential_id));
        Ok(fork_detected(&self.slices[si], records, new_attestor, new_value))
    }

    /// Sets the time after which the credential's attestations no longer
    /// count. Only the issuer may; the time must lie after `now` and within
    /// the accepted distance of it.
    pub fn set_attestation_expiry(&mut self, now: u64, issuer: Address, credential_id: u64, expires_at: u64) -> (r: Result<(), Fault>)
        ensures
            ({
                let failure = if old(self).config.paused {
                    Some(Fault::Contract(ContractError::ContractPaused))
                } else if !timestamp_in_range(now, expires_at) {
                    Some(Fault::Contract(ContractError::InvalidTimestamp))
                } else if old(self).issuer_only_failure(issuer, credential_id) is Some {
                    old(self).issuer_only_failure(issuer, credential_id)
                } else if expires_at <= now {
                    Some(Fault::Contract(ContractError::InvalidInput))
                } else {
                    None
                };
                &&& r is Err <==> failure is Some
                &&& r matches Err(f) ==> failure == Some(f) && *final(self) == *old(self)
            }),
            r is Ok ==> final(self).cred_data.attestation_expiry@ == old(self).cred_data.attestation_expiry@.insert(credential_id, expires_at)
                && cred_data_changed(old(self).cred_data, final(self).cred_data, set![CredField::AttestationExpiry])
                && only_changed(*old(self), *final(self), set![Part::CredData]),
    {
        self.require_not_paused()?;
        Self::validate_timestamp(now, expires_at)?;
        let i = match self.find_credential(credential_id) {
            Some(i) => i,
            None => { return Err(Fault::Contract(ContractError::CredentialNotFound)); },
        };
        if self.credentials[i].issuer != issuer {
            return Err(Fault::Abort(Abort::Unauthorized));
        }
        Self::precondition(expires_at > now)?;
        self.cred_data.attestation_expiry.insert(credential_id, expires_at);
        Ok(())
    }

    /// Whether the credential's attestations have expired at `now`: the expiry
    /// set on the credential has passed, or one of its attestation records
    /// carries an expiry that has passed.
    pub fn is_attestation_expired(&self, now: u64, credential_id: u64) -> (r: Result<bool, Fault>)
        ensures
            r == (if self.has_credential(credential_id) {
                Ok::<bool, Fault>((self.cred_data.attestation_expiry@.contains_key(credential_id)
                    && now >= self.cred_data.attestation_expiry@[credential_id])
                    || exists|i: int| 0 <= i < self.records_of(credential_id).len()
                        && #[trigger] record_expired(self.records_of(credential_id)[i], now))
            } else {
                Err(Fault::Contract(ContractError::CredentialNotFound))
            }),
    {
        if self.find_credential(credential_id).is_none() {
            return Err(Fault::Contract(ContractError::CredentialNotFound));
        }
        let by_condition = match self.cred_data.attestation_expiry.get(&credential_id) {
            Some(e) => now >= *e,
            None => false,
        };
        if by_condition {
            return Ok(true);
        }
        let empty: Vec<AttestationRecord> = Vec::new();
        let records = match self.attestations.get(&credential_id) {
            Some(v) => v,
            None => &empty,
        };
        assert(records@ == self.records_of(credential_id));
        let mut k: usize = 0;
        while k < records.len()
            invariant
                k <= records.len(),
                records@ == self.records_of(credential_id),
                self.has_credential(credential_id),
                !(self.cred_data.attestation_expiry@.contains_key(credential_id)
                    && now >= self.cred_data.attestation_expiry@[credential_id]),
                forall|j: int| 0 <= j < k ==> !#[trigger] record_expired(records@[j], now),
            decreases records.len() - k,
        {
            let expired = match records[k].expires_at {
                Some(e) => now >= e,
                None => false,
            };
            if expired {
                assert(record_expired(records@[k as int], now));
                return Ok(true);
            }
            k += 1;
        }
        Ok(false)
    }

    /// Sets the window `start .. end` in which the credential may be attested.
    /// Only the issuer may; both ends must be within the accepted distance of
    /// `now`, and `start` must come before `end`.
    pub fn set_attestation_window(&mut self, now: u64, issuer: Address, credential_id: u64, start: u64, end: u64) -> (r: Result<(), Fault>)
        ensures
            ({
                let failure = if old(self).config.paused {
                    Some(Fault::Contract(ContractError::ContractPaused))
                } else if !timestamp_in_range(now, start) || !timestamp_in_range(now, end) {
                    Some(Fault::Contract(ContractError::InvalidTimestamp))
                } else if old(self).issuer_only_failure(issuer, credential_id) is Some {
                    old(self).issuer_only_failure(issuer, credential_id)
                } else if start >= end {
                    Some(Fault::Contract(ContractError::InvalidInput))
                } else {
                    None
                };
                &&& r is Err <==> failure is Some
                &&& r matches Err(f) ==> failure == Some(f) && *final(self) == *old(self)
            }),
            r is Ok ==> final(self).cred_data.attestation_windows@ == old(self).cred_data.attestation_windows@.insert(
                credential_id, AttestationTimeWindow { start, end })
                && cred_data_changed(old(self).cred_data, final(self).cred_data, set![CredField::AttestationWindows])
                && only_changed(*old(self), *final(self), set![Part::CredData]),
    {
        self.require_not_paused()?;
        Self::validate_timestamp(now, start)?;
        Self::validate_timestamp(now, end)?;
        let i = match self.find_credential(credential_id) {
            Some(i) => i,
            None => { return Err(Fault::Contract(ContractError::CredentialNotFound)); },
        };
        if self.credentials[i].issuer != issuer {
            return Err(Fault::Abort(Abort::Unauthorized));
        }
        Self::precondition(start < end)?;
        self.cred_data.attestation_windows.insert(credential_id, AttestationTimeWindow { start, end });
        Ok(())
    }

    /// The credential's attestation window, if one is set.
    pub fn get_attestation_window(&self, credential_id: u64) -> (w: Option<AttestationTimeWindow>)
        ensures
            w == (if self.cred_data.attestation_windows@.contains_key(credential_id) {
                Some(self.cred_data.attestation_windows@[credential_id])
            } else {
                None
            }),
    {
        match self.cred_data.attestation_windows.get(&credential_id) {
            Some(w) => Some(*w),
            None => None,
        }
    }

    /// Attaches metadata to the attestor's attestation of a credential.
    pub fn set_attestation_metadata(&mut self, attestor: Address, credential_id: u64, metadata: Vec<u8>) -> (r: Result<(), Fault>)
        ensures
            !has_attested(old(self).records_of(credential_id), attestor) ==> r == Err::<(), Fault>(
                Fault::Abort(Abort::AttestationNotFound)) && *final(self) == *old(self),
            has_attested(old(self).records_of(credential_id), attestor) ==> r is Ok
                && final(self).cred_data.attestation_metadata@ == old(self).cred_data.attestation_metadata@.insert(
                    pair_key(credential_id, attestor.0), metadata)
                && cred_data_changed(old(self).cred_data, final(self).cred_data, set![CredField::AttestationMetadata])
                && only_changed(*old(self), *final(self), set![Part::CredData]),
    {
        let found = match self.attestations.get(&credential_id) {
            Some(v) => attested_by(v, attestor),
            None => false,
        };
        if !found {
            return Err(Fault::Abort(Abort::AttestationNotFound));
        }
        self.cred_data.attestation_metadata.insert(pack_pair(credential_id, attestor.0), metadata);
        Ok(())
    }

    /// The metadata attached to the attestor's attestation, if any.
    pub fn get_attestation_metadata(&self, credential_id: u64, attestor: Address) -> (m: Option<Vec<u8>>)
        ensures
            self.cred_data.attestation_metadata@.contains_key(pair_key(credential_id, attestor.0)) ==> (m matches Some(v)
                && v@ == self.cred_data.attestation_metadata@[pair_key(credential_id, attestor.0)]@),
            !self.cred_data.attestation_metadata@.contains_key(pair_key(credential_id, attestor.0)) ==> m is None,
    {
        match self.cred_data.attestation_metadata.get(&pack_pair(credential_id, attestor.0)) {
            Some(v) => Some(copy_bytes(v)),
            None => None,
        }
    }

    /// Attaches evidence, dated `now`, to the attestor's attestation of a credential.
    pub fn attach_evidence(&mut self, now: u64, attestor: Address, credential_id: u64, evidence_hash: Vec<u8>) -> (r: Result<(), Fault>)
        ensures
            ({
                let failure = if old(self).config.paused {
                    Some(Fault::Contract(ContractError::ContractPaused))
                } else if !old(self).has_credential(credential_id) {
                    Some(Fault::Contract(ContractError::CredentialNotFound))
                } else if evidence_hash.len() == 0 {
                    Some(Fault::Abort(Abort::InvalidArgument))
                } else {
                    None
                };
                &&& r is Err <==> failure is Some
                &&& r matches Err(f) ==> failure == Some(f) && *final(self) == *old(self)
            }),
            r is Ok ==> final(self).cred_data.evidence@ == old(self).cred_data.evidence@.insert(
                pair_key(credential_id, attestor.0), AttestationEvidence { evidence_hash, attached_at: now })
                && cred_data_changed(old(self).cred_data, final(self).cred_data, set![CredField::Evidence])
                && only_changed(*old(self), *final(self), set![Part::CredData]),
    {
        self.require_not_paused()?;
        if self.find_credential(credential_id).is_none() {
            return Err(Fault::Contract(ContractError::CredentialNotFound));
        }
        if evidence_hash.len() == 0 {
            return Err(Fault::Abort(Abort::InvalidArgument));
        }
        self.cred_data.evidence.insert(pack_pair(credential_id, attestor.0), AttestationEvidence { evidence_hash, attached_at: now });
        Ok(())
    }

    /// The evidence attached to the attestor's attestation, if any.
    pub fn get_attestation_evidence(&self, credential_id: u64, attestor: Address) -> (e: Option<AttestationEvidence>)
        ensures
            self.cred_data.evidence@.contains_key(pair_key(credential_id, attestor.0)) ==> (e matches Some(x) && {
                let stored = self.cred_data.evidence@[pair_key(credential_id, attestor.0)];
                x.evidence_hash@ == stored.evidence_hash@ && x.attached_at == stored.attached_at
            }),
            !self.cred_data.evidence@.contains_key(pair_key(credential_id, attestor.0)) ==> e is None,
    {
        match self.cred_data.evidence.get(&pack_pair(credential_id, attestor.0)) {
            Some(x) => Some(AttestationEvidence { evidence_hash: copy_bytes(&x.evidence_hash), attached_at: x.attached_at }),
            None => None,
        }
    }

    /// Replaces the conditions of a credential's attestations; issuer only.
    pub fn set_attestation_conditions(&mut self, issuer: Address, credential_id: u64, conditions: Vec<AttestationCondition>) -> (r: Result<(), Fault>)
        ensures
            ({
                let failure = old(self).issuer_only_failure(issuer, credential_id);
                &&& r is Err <==> failure is Some
                &&& r matches Err(f) ==> failure == Some(f) && *final(self) == *old(self)
            }),
            r is Ok ==> list_at(final(self).cred_data.conditions@, credential_id) == conditions@
                && only_key_set(old(self).cred_data.conditions@, final(self).cred_data.conditions@, credential_id)
                && cred_data_changed(old(self).cred_data, final(self).cred_data, set![CredField::Conditions])
                && only_changed(*old(self), *final(self), set![Part::CredData]),
    {
        self.require_not_paused()?;
        let i = match self.find_credential(credential_id) {
            Some(i) => i,
            None => { return Err(Fault::Contract(ContractError::CredentialNotFound)); },
        };
        if self.credentials[i].issuer != issuer {
            return Err(Fault::Abort(Abort::Unauthorized));
        }
        set_at(&mut self.cred_data.conditions, credential_id, conditions);
        Ok(())
    }

    /// The conditions of a credential's attestations.
    pub fn get_attestation_conditions(&self, credential_id: u64) -> (t: &[AttestationCondition])
        ensures
            t@ == list_at(self.cred_data.conditions@, credential_id),
    {
        match self.cred_data.conditions.get(&credential_id) {
            Some(v) => v.as_slice(),
            None => &[],
        }
    }

    /// Whether the values meet the credential's conditions (`conditions_met`).
    pub fn evaluate_attestation_conditions(&self, credential_id: u64, condition_values: &Vec<Vec<u8>>) -> (b: bool)
        ensures
            b == conditions_met(list_at(self.cred_data.conditions@, credential_id), condition_values@),
    {
        let conditions = self.get_attestation_conditions(credential_id);
        if conditions.len() == 0 {
            return true;
        }
        if condition_values.len() != conditions.len() {
            return false;
        }
        let mut k: usize = 0;
        while k < conditions.len()
            invariant
                k <= conditions.len(),
                conditions.len() == condition_values.len(),
                conditions@ == list_at(self.cred_data.conditions@, credential_id),
                forall|j: int| 0 <= j < k ==> #[trigger] conditions@[j].value@ == condition_values@[j]@,
            decreases conditions.len() - k,
        {
            if !bytes_equal(&conditions[k].value, &condition_values[k]) {
                return false;
            }
            k += 1;
        }
        true
    }

    /// Whether a proof expiring at `proof_expires_at` has expired at `now`.
    pub fn is_proof_expired(&self, now: u64, credential_id: u64, proof_expires_at: u64) -> (r: Result<bool, Fault>)
        ensures
            r == (if self.has_credential(credential_id) {
                Ok::<bool, Fault>(now >= proof_expires_at)
            } else {
                Err(Fault::Contract(ContractError::CredentialNotFound))
            }),
    {
        if self.find_credential(credential_id).is_none() {
            return Err(Fault::Contract(ContractError::CredentialNotFound));
        }
        Ok(now >= proof_expires_at)
    }

    /// Accepts a new proof expiry from the issuer of a live credential and
    /// returns it; the expiry must lie after `now`. Nothing is stored.
    pub fn renew_proof(&self, now: u64, issuer: Address, credential_id: u64, new_proof_expires_at: u64) -> (r: Result<u64, Fault>)
        ensures
            ({
                let failure = if self.issuer_only_failure(issuer, credential_id) is Some {
                    self.issuer_only_failure(issuer, credential_id)
                } else if self.credential_at(credential_id).revoked {
                    Some(Fault::Abort(Abort::CredentialRevoked))
                } else if self.credential_at(credential_id).suspended {
                    Some(Fault::Abort(Abort::CredentialSuspended))
                } else if new_proof_expires_at <= now {
                    Some(Fault::Abort(Abort::InvalidArgument))
                } else {
                    None
                };
                r == match failure {
                    Some(f) => Err::<u64, Fault>(f),
                    None => Ok(new_proof_expires_at),
                }
            }),
    {
        self.require_not_paused()?;
        let i = match self.find_credential(credential_id) {
            Some(i) => i,
            None => { return Err(Fault::Contract(ContractError::CredentialNotFound)); },
        };
        if self.credentials[i].issuer != issuer {
            return Err(Fault::Abort(Abort::Unauthorized));
        }
        if self.credentials[i].revoked {
            return Err(Fault::Abort(Abort::CredentialRevoked));
        }
        if self.credentials[i].suspended {
            return Err(Fault::Abort(Abort::CredentialSuspended));
        }
        if new_proof_expires_at <= now {
            return Err(Fault::Abort(Abort::InvalidArgument));
        }
        Ok(new_proof_expires_at)
    }

    /// A page of the slice's consensus history (`page_of`). Page
    /// numbers start at 1; page 0 is refused as an arithmetic overflow.
    pub fn get_slice_consensus_history(&self, slice_id: u64, page: u32, page_size: u32) -> (r: Result<Vec<ConsensusDecision>, Fault>)
        ensures
            self.config.paused ==> r == Err::<Vec<ConsensusDecision>, Fault>(Fault::Contract(ContractError::ContractPaused)),
            !self.config.paused && page == 0 ==> r == Err::<Vec<ConsensusDecision>, Fault>(Fault::Abort(Abort::ArithmeticOverflow)),
            !self.config.paused && page > 0 ==> (r matches Ok(v)
                && v@ == page_of(list_at(self.slice_data.consensus_history@, slice_id), page, page_size)),
    {
        self.require_not_paused()?;
        if page == 0 {
            return Err(Fault::Abort(Abort::ArithmeticOverflow));
        }
        let empty: Vec<ConsensusDecision> = Vec::new();
        let history = match self.slice_data.consensus_history.get(&slice_id) {
            Some(v) => v,
            None => &empty,
        };
        Ok(copy_page(history, page, page_size))
    }

    /// Every claim type is supported.
    pub fn is_claim_type_supported(claim_type: ClaimType) -> (b: bool)
        ensures
            b,
    {
        match claim_type {
            ClaimType::HasDegree => true,
            ClaimType::HasLicense => true,
            ClaimType::HasEmploymentHistory => true,
            ClaimType::HasCertification => true,
            ClaimType::HasResearchPublication => true,
        }
    }

    /// The supported claim types, in declaration order.
    pub fn get_supported_claim_types() -> (v: Vec<ClaimType>)
        ensures
            v@ == seq![ClaimType::HasDegree, ClaimType::HasLicense, ClaimType::HasEmploymentHistory,
                ClaimType::HasCertification, ClaimType::HasResearchPublication],
    {
        let mut v: Vec<ClaimType> = Vec::new();
        v.push(ClaimType::HasDegree);
        v.push(ClaimType::HasLicense);
        v.push(ClaimType::HasEmploymentHistory);
        v.push(ClaimType::HasCertification);
        v.push(ClaimType::HasResearchPublication);
        v
    }

    /// Whether every claim type of the list is supported; so always true.
    pub fn validate_claim_types(claim_types: &Vec<ClaimType>) -> (b: bool)
        ensures
            b,
    {
        let mut k: usize = 0;
        while k < claim_types.len()
            invariant
                k <= claim_types.len(),
            decreases claim_types.len() - k,
        {
            if !Self::is_claim_type_supported(claim_types[k]) {
                return false;
            }
            k += 1;
        }
        true
    }

    /// Checks the shape of a claim batch: between 1 and `MAX_BATCH_SIZE`
    /// claim types, and as many proofs as claim types.
    pub fn check_claim_batch(n_claims: usize, n_proofs: usize) -> (r: Result<(), Fault>)
        ensures
            n_claims < 1 ==> r == Err::<(), Fault>(Fault::Abort(Abort::TooFewElements)),
            n_claims > MAX_BATCH_SIZE ==> r == Err::<(), Fault>(Fault::Abort(Abort::TooManyElements)),
            1 <= n_claims <= MAX_BATCH_SIZE && n_claims != n_proofs ==> r == Err::<(), Fault>(Fault::Abort(Abort::LengthMismatch)),
            1 <= n_claims <= MAX_BATCH_SIZE && n_claims == n_proofs ==> r is Ok,
    {
        if n_claims < 1 {
            return Err(Fault::Abort(Abort::TooFewElements));
        }
        if n_claims > MAX_BATCH_SIZE as usize {
            return Err(Fault::Abort(Abort::TooManyElements));
        }
        if n_claims != n_proofs {
            return Err(Fault::Abort(Abort::LengthMismatch));
        }
        Ok(())
    }
}

/// Whether two byte strings are equal.
pub fn bytes_equal(a: &Vec<u8>, b: &Vec<u8>) -> (r: bool)
    ensures
        r == (a@ == b@),
{
    if a.len() != b.len() {
        return false;
    }
    let mut k: usize = 0;
    while k < a.len()
        invariant
            k <= a.len(),
            a.len() == b.len(),
            forall|j: int| 0 <= j < k ==> a@[j] == b@[j],
        decreases a.len() - k,
    {
        if a[k] != b[k] {
            return false;
        }
        k += 1;
    }
    assert(a@ =~= b@);
    true
}

} // verus!
