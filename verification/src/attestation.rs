use vstd::prelude::*;
use std::collections::HashMap;
use crate::checks::{optional_timestamp_in_range, MAX_BATCH_SIZE};
use crate::credentials::activity_record;
use crate::errors::{Abort, ContractError, Fault};
use crate::lists::{none_after, retained_activity, retain_recent};
use crate::quorum::{attested_by, contains_address, fork_detected, fork_spec, has_attested, is_suspended_in};
use crate::rate_limit::{effective_rate_config, rate_limit_step};
use crate::state::{pack_pair, pair_key, only_changed, Caches, HolderData, Part, QuorumProofContract};
use crate::store::{count_at, list_at, only_key_set, read_count};
use crate::types::{
    Address, ActivityRecord, ActivityType, AttestationRecord, AttestationVerificationCache,
    HolderNotification,
};

verus! {

broadcast use vstd::std_specs::hash::group_hash_axioms;

/// The record an attestation adds.
pub open spec fn new_record(attestor: Address, now: u64, expires_at: Option<u64>, value: bool) -> AttestationRecord {
    AttestationRecord { attestor, attested_at: now, expires_at, attestation_value: value, metadata: None }
}

/// The maps an attestation writes, held apart from the contract while a
/// call is in progress so that a refused call leaves the contract as it was.
pub struct AttestWork {
    pub attestations: HashMap<u64, Vec<AttestationRecord>>,
    pub verification: HashMap<u128, AttestationVerificationCache>,
    pub attestor_counts: HashMap<u64, u64>,
    pub holder_counts: HashMap<u64, u64>,
    pub activity: HashMap<u64, Vec<ActivityRecord>>,
    pub notifications: HashMap<u64, Vec<HolderNotification>>,
}

/// The contract `c` with the maps of `w` in place of its own.
pub open spec fn with_work(c: QuorumProofContract, w: AttestWork) -> QuorumProofContract {
    QuorumProofContract {
        attestations: w.attestations,
        caches: Caches { verification: w.verification, ..c.caches },
        holders: HolderData {
            attestor_counts: w.attestor_counts,
            holder_attestation_counts: w.holder_counts,
            activity: w.activity,
            notifications: w.notifications,
            ..c.holders
        },
        ..c
    }
}

/// `a` and `b` hold the same contents, rate limits aside: the maps an
/// attestation writes have the same entries and every other part is equal.
pub open spec fn same_contents(a: QuorumProofContract, b: QuorumProofContract) -> bool {
    &&& a.attestations@ == b.attestations@
    &&& a.caches.verification@ == b.caches.verification@
    &&& a.caches.revocation == b.caches.revocation
    &&& a.caches.metadata == b.caches.metadata
    &&& a.caches.slice_weight == b.caches.slice_weight
    &&& a.holders.attestor_counts@ == b.holders.attestor_counts@
    &&& a.holders.holder_attestation_counts@ == b.holders.holder_attestation_counts@
    &&& a.holders.activity@ == b.holders.activity@
    &&& a.holders.notifications@ == b.holders.notifications@
    &&& a.holders.slash_counts == b.holders.slash_counts
    &&& a.holders.reputation_recoveries == b.holders.reputation_recoveries
    &&& a.holders.successful_verifications == b.holders.successful_verifications
    &&& a.holders.failed_verifications == b.holders.failed_verifications
    &&& a.holders.encodings == b.holders.encodings
    &&& only_changed(a, b, set![Part::RateLimits, Part::Attestations, Part::Caches, Part::Holders])
}

/// What one successful attestation by `attestor` of credential `cred`
/// through slice `slice_id` changes: the record is appended, the cached
/// verification of the pair is dropped, the attestor's and the holder's
/// counters go up by one, and the holder's activity log and notification
/// history each gain an entry. Rate limits aside, nothing else changes.
pub open spec fn attest_effect(
    a: QuorumProofContract,
    b: QuorumProofContract,
    now: u64,
    attestor: Address,
    cred: u64,
    slice_id: u64,
    value: bool,
    expires_at: Option<u64>,
) -> bool {
    let subject = a.credential_at(cred).subject;
    &&& list_at(b.attestations@, cred) == list_at(a.attestations@, cred).push(new_record(attestor, now, expires_at, value))
    &&& only_key_set(a.attestations@, b.attestations@, cred)
    &&& b.caches.verification@ == a.caches.verification@.remove(pair_key(cred, slice_id))
    &&& b.caches.revocation == a.caches.revocation
    &&& b.caches.metadata == a.caches.metadata
    &&& b.caches.slice_weight == a.caches.slice_weight
    &&& b.holders.attestor_counts@ == a.holders.attestor_counts@.insert(
        attestor.0,
        (count_at(a.holders.attestor_counts@, attestor.0) + 1) as u64,
    )
    &&& b.holders.holder_attestation_counts@ == a.holders.holder_attestation_counts@.insert(
        subject.0,
        (count_at(a.holders.holder_attestation_counts@, subject.0) + 1) as u64,
    )
    &&& list_at(b.holders.activity@, subject.0) == retained_activity(list_at(a.holders.activity@, subject.0), now).push(
        activity_record(ActivityType::CredentialAttested, cred, now, attestor, Some(slice_id)),
    )
    &&& only_key_set(a.holders.activity@, b.holders.activity@, subject.0)
    &&& list_at(b.holders.notifications@, subject.0) == list_at(a.holders.notifications@, subject.0).push(
        HolderNotification { credential_id: cred, attestor, slice_id, notified_at: now },
    )
    &&& only_key_set(a.holders.notifications@, b.holders.notifications@, subject.0)
    &&& b.holders.slash_counts == a.holders.slash_counts
    &&& b.holders.reputation_recoveries == a.holders.reputation_recoveries
    &&& b.holders.successful_verifications == a.holders.successful_verifications
    &&& b.holders.failed_verifications == a.holders.failed_verifications
    &&& b.holders.encodings == a.holders.encodings
    &&& only_changed(a, b, set![Part::RateLimits, Part::Attestations, Part::Caches, Part::Holders])
}

/// Link `j` of an attestation chain: credential `cred` is accepted in state
/// `states[j]` and attesting it gives `states[j + 1]`.
pub open spec fn chain_link(
    states: Seq<QuorumProofContract>,
    j: int,
    now: u64,
    attestor: Address,
    cred: u64,
    slice_id: u64,
    value: bool,
    expires_at: Option<u64>,
) -> bool {
    &&& states[j].attest_item_failure(now, attestor, cred, slice_id, value) is None
    &&& attest_effect(states[j], states[j + 1], now, attestor, cred, slice_id, value, expires_at)
}

/// `states` are the states that attesting the credentials `ids` one after
/// another passes through, each accepted.
pub open spec fn attest_chain(
    states: Seq<QuorumProofContract>,
    now: u64,
    attestor: Address,
    ids: Seq<u64>,
    slice_id: u64,
    value: bool,
    expires_at: Option<u64>,
) -> bool {
    &&& states.len() == ids.len() + 1
    &&& forall|j: int| 0 <= j < ids.len() ==> #[trigger] chain_link(states, j, now, attestor, ids[j], slice_id, value, expires_at)
}

/// Attesting the first `j` credentials of `ids` from a state with the
/// contents of `start` succeeds, and credential `ids[j]` is then refused with `f`.
pub open spec fn batch_fails_at(
    start: QuorumProofContract,
    j: int,
    f: Fault,
    now: u64,
    attestor: Address,
    ids: Seq<u64>,
    slice_id: u64,
    value: bool,
    expires_at: Option<u64>,
) -> bool {
    exists|states: Seq<QuorumProofContract>|
        #[trigger] attest_chain(states, now, attestor, ids.take(j), slice_id, value, expires_at)
            && same_contents(states[0], start)
            && states.last().attest_item_failure(now, attestor, ids[j], slice_id, value) == Some(f)
}

/// Attesting every credential of `ids` from a state with the contents of
/// `start` succeeds and ends in a state with the contents of `end`.
pub open spec fn batch_succeeds(
    start: QuorumProofContract,
    end: QuorumProofContract,
    now: u64,
    attestor: Address,
    ids: Seq<u64>,
    slice_id: u64,
    value: bool,
    expires_at: Option<u64>,
) -> bool {
    exists|states: Seq<QuorumProofContract>|
        #[trigger] attest_chain(states, now, attestor, ids, slice_id, value, expires_at)
            && same_contents(states[0], start)
            && same_contents(states.last(), end)
}

impl QuorumProofContract {
    /// The attestation records of credential `id`.
    pub open spec fn records_of(&self, id: u64) -> Seq<AttestationRecord> {
        list_at(self.attestations@, id)
    }

    /// Credential `id` has an attestation window that `now` lies outside of.
    pub open spec fn outside_window(&self, id: u64, now: u64) -> bool {
        &&& self.cred_data.attestation_windows@.contains_key(id)
        &&& (now < self.cred_data.attestation_windows@[id].start || now >= self.cred_data.attestation_windows@[id].end)
    }

    /// Why credential `cred` cannot be attested now, if it cannot.
    pub open spec fn attest_credential_failure(&self, now: u64, cred: u64) -> Option<Fault> {
        if !self.has_credential(cred) {
            Some(Fault::Contract(ContractError::CredentialNotFound))
        } else if self.credential_at(cred).revoked {
            Some(Fault::Abort(Abort::CredentialRevoked))
        } else if self.credential_at(cred).suspended {
            Some(Fault::Abort(Abort::CredentialSuspended))
        } else if self.outside_window(cred, now) {
            Some(Fault::Contract(ContractError::AttestationWindowOutside))
        } else {
            None
        }
    }

    /// Why `attestor` cannot attest through slice `slice_id`, if it cannot.
    pub open spec fn attest_slice_failure(&self, attestor: Address, slice_id: u64) -> Option<Fault> {
        if !self.has_slice(slice_id) {
            Some(Fault::Contract(ContractError::SliceNotFound))
        } else if !self.slice_at(slice_id).attestors@.contains(attestor) {
            Some(Fault::Abort(Abort::AttestorNotInSlice))
        } else if is_suspended_in(self.slice_data.suspended@, slice_id, attestor) {
            Some(Fault::Abort(Abort::AttestorSuspended))
        } else {
            None
        }
    }

    /// Why the record cannot be added, once credential and slice are
    /// accepted: a fork, a repeated attestation, or a counter or activity
    /// log that cannot take one more entry.
    pub open spec fn attest_record_failure(&self, now: u64, attestor: Address, cred: u64, slice_id: u64, value: bool) -> Option<Fault> {
        let subject = self.credential_at(cred).subject;
        if fork_spec(self.slice_at(slice_id), self.records_of(cred), attestor, value) {
            Some(Fault::Contract(ContractError::ForkDetected))
        } else if has_attested(self.records_of(cred), attestor) {
            Some(Fault::Abort(Abort::AlreadyAttested))
        } else if count_at(self.holders.attestor_counts@, attestor.0) == u64::MAX {
            Some(Fault::Abort(Abort::ArithmeticOverflow))
        } else if !none_after(self.activity_of(subject), now) {
            Some(Fault::Abort(Abort::ArithmeticOverflow))
        } else if count_at(self.holders.holder_attestation_counts@, subject.0) == u64::MAX {
            Some(Fault::Abort(Abort::ArithmeticOverflow))
        } else {
            None
        }
    }

    /// Why one credential of a batch cannot be attested, if it cannot.
    pub open spec fn attest_item_failure(&self, now: u64, attestor: Address, cred: u64, slice_id: u64, value: bool) -> Option<Fault> {
        if cred == 0 {
            Some(Fault::Contract(ContractError::InvalidInput))
        } else if self.attest_credential_failure(now, cred) is Some {
            self.attest_credential_failure(now, cred)
        } else {
            self.attest_record_failure(now, attestor, cred, slice_id, value)
        }
    }

    /// The first reason, in the contract's order of checks, to refuse `attest`.
    pub open spec fn attest_failure(
        &self,
        now: u64,
        attestor: Address,
        cred: u64,
        slice_id: u64,
        value: bool,
        expires_at: Option<u64>,
    ) -> Option<Fault> {
        if self.config.paused {
            Some(Fault::Contract(ContractError::ContractPaused))
        } else if rate_limit_step(
            effective_rate_config(self.config.rate_limit_config),
            if self.rate_limits@.contains_key(attestor.0) { Some(self.rate_limits@[attestor.0]) } else { None },
            now,
        ) is None {
            Some(Fault::Contract(ContractError::RateLimitExceeded))
        } else if cred == 0 || slice_id == 0 {
            Some(Fault::Contract(ContractError::InvalidInput))
        } else if !optional_timestamp_in_range(now, expires_at) {
            Some(Fault::Contract(ContractError::InvalidTimestamp))
        } else if self.attest_credential_failure(now, cred) is Some {
            self.attest_credential_failure(now, cred)
        } else if self.attest_slice_failure(attestor, slice_id) is Some {
            self.attest_slice_failure(attestor, slice_id)
        } else {
            self.attest_record_failure(now, attestor, cred, slice_id, value)
        }
    }

    /// Copies out the maps an attestation writes.
    pub fn load_attest_work(&self) -> (w: AttestWork)
        ensures
            same_contents(with_work(*self, w), *self),
            with_work(*self, w).rate_limits == self.rate_limits,
    {
        AttestWork {
            attestations: self.attestations.clone(),
            verification: self.caches.verification.clone(),
            attestor_counts: self.holders.attestor_counts.clone(),
            holder_counts: self.holders.holder_attestation_counts.clone(),
            activity: self.holders.activity.clone(),
            notifications: self.holders.notifications.clone(),
        }
    }

    /// Puts the maps of `w` in place.
    pub fn commit_attest_work(&mut self, w: AttestWork)
        ensures
            *final(self) == with_work(*old(self), w),
    {
        self.attestations = w.attestations;
        self.caches.verification = w.verification;
        self.holders.attestor_counts = w.attestor_counts;
        self.holders.holder_attestation_counts = w.holder_counts;
        self.holders.activity = w.activity;
        self.holders.notifications = w.notifications;
    }

    /// Checks and records one attestation on the maps of `w`; `self`
    /// supplies the credentials, slices and settings and is not written.
    /// The slice must exist and hold the attestor.
    pub fn attest_step(
        &self,
        w: &mut AttestWork,
        now: u64,
        attestor: Address,
        cred: u64,
        slice_id: u64,
        value: bool,
        expires_at: Option<u64>,
    ) -> (r: Result<(), Fault>)
        requires
            self.wf(),
            self.has_slice(slice_id),
        ensures
            ({
                let s0 = with_work(*self, *old(w));
                let failure = s0.attest_item_failure(now, attestor, cred, slice_id, value);
                &&& r is Err <==> failure is Some
                &&& r matches Err(f) ==> failure == Some(f) && *final(w) == *old(w)
                &&& r is Ok ==> attest_effect(s0, with_work(*self, *final(w)), now, attestor, cred, slice_id, value, expires_at)
            }),
    {
        let ghost s0 = with_work(*self, *w);
        Self::precondition(cred > 0)?;
        let i = match self.find_credential(cred) {
            Some(i) => i,
            None => { return Err(Fault::Contract(ContractError::CredentialNotFound)); },
        };
        if self.credentials[i].revoked {
            return Err(Fault::Abort(Abort::CredentialRevoked));
        }
        if self.credentials[i].suspended {
            return Err(Fault::Abort(Abort::CredentialSuspended));
        }
        if let Some(window) = self.cred_data.attestation_windows.get(&cred) {
            if now < window.start || now >= window.end {
                return Err(Fault::Contract(ContractError::AttestationWindowOutside));
            }
        }
        let subject = self.credentials[i].subject;
        let empty_records: Vec<AttestationRecord> = Vec::new();
        let records = match w.attestations.get(&cred) {
            Some(v) => v,
            None => &empty_records,
        };
        assert(records@ == s0.records_of(cred));
        let si = (slice_id - 1) as usize;
        if fork_detected(&self.slices[si], records, attestor, value) {
            return Err(Fault::Contract(ContractError::ForkDetected));
        }
        if attested_by(records, attestor) {
            return Err(Fault::Abort(Abort::AlreadyAttested));
        }
        let count = read_count(&w.attestor_counts, attestor.0);
        if count == u64::MAX {
            return Err(Fault::Abort(Abort::ArithmeticOverflow));
        }
        let empty_log: Vec<ActivityRecord> = Vec::new();
        let log = match w.activity.get(&subject.0) {
            Some(v) => v,
            None => &empty_log,
        };
        assert(log@ == s0.activity_of(subject));
        let mut retained = retain_recent(log, now)?;
        let held = read_count(&w.holder_counts, subject.0);
        if held == u64::MAX {
            return Err(Fault::Abort(Abort::ArithmeticOverflow));
        }
        let mut list = match w.attestations.remove(&cred) {
            Some(v) => v,
            None => Vec::new(),
        };
        list.push(AttestationRecord { attestor, attested_at: now, expires_at, attestation_value: value, metadata: None });
        w.attestations.insert(cred, list);
        w.verification.remove(&pack_pair(cred, slice_id));
        w.attestor_counts.insert(attestor.0, count + 1);
        retained.push(ActivityRecord {
            activity_type: ActivityType::CredentialAttested,
            credential_id: cred,
            timestamp: now,
            actor: attestor,
            slice_id: Some(slice_id),
        });
        w.activity.insert(subject.0, retained);
        w.holder_counts.insert(subject.0, held + 1);
        let mut notes = match w.notifications.remove(&subject.0) {
            Some(v) => v,
            None => Vec::new(),
        };
        notes.push(HolderNotification { credential_id: cred, attestor, slice_id, notified_at: now });
        w.notifications.insert(subject.0, notes);
        proof {
            let s1 = with_work(*self, *w);
            assert(s1.attestations@.remove(cred) =~= s0.attestations@.remove(cred));
            assert(s1.holders.activity@.remove(subject.0) =~= s0.holders.activity@.remove(subject.0));
            assert(s1.holders.notifications@.remove(subject.0) =~= s0.holders.notifications@.remove(subject.0));
        }
        Ok(())
    }

    /// Records that `attestor`, a member of slice `slice_id`, attests
    /// credential `credential_id` with `attestation_value`. Refused when a
    /// member of the slice has attested the other value (a fork), when the
    /// attestor has attested the credential before, and on the checks of
    /// `attest_failure`; a refused call changes nothing.
    pub fn attest(
        &mut self,
        now: u64,
        attestor: Address,
        credential_id: u64,
        slice_id: u64,
        attestation_value: bool,
        expires_at: Option<u64>,
    ) -> (r: Result<(), Fault>)
        requires
            old(self).wf(),
        ensures
            final(self).wf(),
            ({
                let failure = old(self).attest_failure(now, attestor, credential_id, slice_id, attestation_value, expires_at);
                &&& r is Err <==> failure is Some
                &&& r matches Err(f) ==> failure == Some(f) && *final(self) == *old(self)
            }),
            r is Ok ==> {
                &&& final(self).rate_limits@ == old(self).rate_limits@.insert(
                    attestor.0,
                    rate_limit_step(
                        effective_rate_config(old(self).config.rate_limit_config),
                        if old(self).rate_limits@.contains_key(attestor.0) { Some(old(self).rate_limits@[attestor.0]) } else { None },
                        now,
                    )->Some_0,
                )
                &&& attest_effect(*old(self), *final(self), now, attestor, credential_id, slice_id, attestation_value, expires_at)
            },
    {
        self.require_not_paused()?;
        let rate = self.next_rate_limit_state(attestor, now)?;
        Self::precondition(credential_id > 0)?;
        Self::precondition(slice_id > 0)?;
        Self::validate_optional_timestamp(now, expires_at)?;
        let i = match self.find_credential(credential_id) {
            Some(i) => i,
            None => { return Err(Fault::Contract(ContractError::CredentialNotFound)); },
        };
        if self.credentials[i].revoked {
            return Err(Fault::Abort(Abort::CredentialRevoked));
        }
        if self.credentials[i].suspended {
            return Err(Fault::Abort(Abort::CredentialSuspended));
        }
        if let Some(window) = self.cred_data.attestation_windows.get(&credential_id) {
            if now < window.start || now >= window.end {
                return Err(Fault::Contract(ContractError::AttestationWindowOutside));
            }
        }
        let si = match self.find_slice(slice_id) {
            Some(si) => si,
            None => { return Err(Fault::Contract(ContractError::SliceNotFound)); },
        };
        if !contains_address(&self.slices[si].attestors, attestor) {
            return Err(Fault::Abort(Abort::AttestorNotInSlice));
        }
        if self.is_attestor_suspended(slice_id, attestor) {
            return Err(Fault::Abort(Abort::AttestorSuspended));
        }
        let mut w = self.load_attest_work();
        self.attest_step(&mut w, now, attestor, credential_id, slice_id, attestation_value, expires_at)?;
        self.commit_attest_work(w);
        self.rate_limits.insert(attestor.0, rate);
        Ok(())
    }
    /// The first reason, in the contract's order of checks, to refuse a
    /// batch of `n` credentials before any credential is looked at.
    pub open spec fn batch_attest_prefix_failure(
        &self,
        now: u64,
        attestor: Address,
        n: int,
        slice_id: u64,
        expires_at: Option<u64>,
    ) -> Option<Fault> {
        if self.config.paused {
            Some(Fault::Contract(ContractError::ContractPaused))
        } else if rate_limit_step(
            effective_rate_config(self.config.rate_limit_config),
            if self.rate_limits@.contains_key(attestor.0) { Some(self.rate_limits@[attestor.0]) } else { None },
            now,
        ) is None {
            Some(Fault::Contract(ContractError::RateLimitExceeded))
        } else if n < 1 {
            Some(Fault::Abort(Abort::TooFewElements))
        } else if n > MAX_BATCH_SIZE {
            Some(Fault::Abort(Abort::TooManyElements))
        } else if slice_id == 0 {
            Some(Fault::Contract(ContractError::InvalidInput))
        } else if !optional_timestamp_in_range(now, expires_at) {
            Some(Fault::Contract(ContractError::InvalidTimestamp))
        } else {
            self.attest_slice_failure(attestor, slice_id)
        }
    }

    /// Attests every credential of `credential_ids` as `attest` would, in
    /// order, charging the rate limit once. The whole batch is refused, and
    /// nothing changes, when any one credential is refused.
    pub fn batch_attest(
        &mut self,
        now: u64,
        attestor: Address,
        credential_ids: &Vec<u64>,
        slice_id: u64,
        attestation_value: bool,
        expires_at: Option<u64>,
    ) -> (r: Result<(), Fault>)
        requires
            old(self).wf(),
        ensures
            final(self).wf(),
            ({
                let prefix = old(self).batch_attest_prefix_failure(now, attestor, credential_ids.len() as int, slice_id, expires_at);
                &&& prefix matches Some(f) ==> r == Err::<(), Fault>(f)
                &&& r matches Err(f) ==> *final(self) == *old(self) && (prefix == Some(f) || (prefix is None
                    && exists|j: int| 0 <= j < credential_ids.len() && #[trigger] batch_fails_at(
                        *old(self), j, f, now, attestor, credential_ids@, slice_id, attestation_value, expires_at)))
                &&& r is Ok ==> prefix is None && batch_succeeds(
                    *old(self), *final(self), now, attestor, credential_ids@, slice_id, attestation_value, expires_at)
            }),
            r is Ok ==> final(self).rate_limits@ == old(self).rate_limits@.insert(
                attestor.0,
                rate_limit_step(
                    effective_rate_config(old(self).config.rate_limit_config),
                    if old(self).rate_limits@.contains_key(attestor.0) { Some(old(self).rate_limits@[attestor.0]) } else { None },
                    now,
                )->Some_0,
            ),
    {
        self.require_not_paused()?;
        let rate = self.next_rate_limit_state(attestor, now)?;
        if credential_ids.len() < 1 {
            return Err(Fault::Abort(Abort::TooFewElements));
        }
        if credential_ids.len() > MAX_BATCH_SIZE as usize {
            return Err(Fault::Abort(Abort::TooManyElements));
        }
        Self::precondition(slice_id > 0)?;
        Self::validate_optional_timestamp(now, expires_at)?;
        let si = match self.find_slice(slice_id) {
            Some(si) => si,
            None => { return Err(Fault::Contract(ContractError::SliceNotFound)); },
        };
        if !contains_address(&self.slices[si].attestors, attestor) {
            return Err(Fault::Abort(Abort::AttestorNotInSlice));
        }
        if self.is_attestor_suspended(slice_id, attestor) {
            return Err(Fault::Abort(Abort::AttestorSuspended));
        }
        let mut w = self.load_attest_work();
        let ghost mut states: Seq<QuorumProofContract> = seq![with_work(*self, w)];
        let mut j: usize = 0;
        while j < credential_ids.len()
            invariant
                self.wf(),
                self.has_slice(slice_id),
                *self == *old(self),
                old(self).batch_attest_prefix_failure(now, attestor, credential_ids.len() as int, slice_id, expires_at) is None,
                j <= credential_ids.len(),
                attest_chain(states, now, attestor, credential_ids@.take(j as int), slice_id, attestation_value, expires_at),
                same_contents(states[0], *old(self)),
                states.last() == with_work(*self, w),
            decreases credential_ids.len() - j,
        {
            let ghost before = states;
            match self.attest_step(&mut w, now, attestor, credential_ids[j], slice_id, attestation_value, expires_at) {
                Ok(()) => {},
                Err(f) => {
                    proof {
                        assert(credential_ids@.take(j as int + 1)[j as int] == credential_ids@[j as int]);
                        assert(batch_fails_at(*old(self), j as int, f, now, attestor, credential_ids@, slice_id, attestation_value, expires_at));
                    }
                    return Err(f);
                },
            }
            proof {
                states = states.push(with_work(*self, w));
                assert forall|k: int| 0 <= k < j + 1 implies #[trigger] chain_link(states, k, now, attestor,
                    credential_ids@.take(j + 1)[k], slice_id, attestation_value, expires_at) by {
                    assert(credential_ids@.take(j + 1)[k] == credential_ids@[k]);
                    if k < j {
                        assert(credential_ids@.take(j as int)[k] == credential_ids@[k]);
                        assert(chain_link(before, k, now, attestor, credential_ids@.take(j as int)[k], slice_id, attestation_value, expires_at));
                        assert(states[k] == before[k] && states[k + 1] == before[k + 1]);
                    }
                }
            }
            j += 1;
        }
        proof {
            assert(credential_ids@.take(credential_ids.len() as int) =~= credential_ids@);
        }
        self.commit_attest_work(w);
        self.rate_limits.insert(attestor.0, rate);
        proof {
            assert(same_contents(states.last(), *final(self)));
            assert(batch_succeeds(*old(self), *final(self), now, attestor, credential_ids@, slice_id, attestation_value, expires_at));
        }
        Ok(())
    }
}

} // verus!
