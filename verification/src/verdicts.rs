use vstd::prelude::*;
use crate::errors::{Abort, ContractError, Fault};
use crate::quorum::{attested_weight, compute_attested_weight, weight_total, total_weight, cap_u32, lemma_weight_total_nonneg};
use crate::state::{pack_pair, pair_key, only_changed, Part, QuorumProofContract};
use crate::store::{count_at, list_at, only_key_set, push_at, read_count};
use crate::types::{HolderReputationConfig, 
    Address, ActivityRecord, ActivityType, AttestationRecord, AttestationVerificationCache,
    ConsensusDecision, HolderReputation,
};
use crate::checks::MAX_BATCH_SIZE;
use crate::admin::{DEFAULT_REPUTATION_AGE_DIVISOR_SECONDS, DEFAULT_REPUTATION_AGE_WEIGHT, DEFAULT_REPUTATION_ATTESTATION_WEIGHT};

verus! {

broadcast use vstd::std_specs::hash::group_hash_axioms;

/// How long a verification result stays cached, in seconds.
pub const VERIFICATION_CACHE_TTL_SECS: u64 = 60;

/// `a + b`, saturating at `u64::MAX`.
pub open spec fn sat_add(a: int, b: int) -> int {
    if a + b <= u64::MAX { a + b } else { u64::MAX as int }
}

/// The cache entry a verification at `now` writes.
pub open spec fn verification_entry(now: u64, cred: u64, slice_id: u64, attested: bool) -> AttestationVerificationCache {
    AttestationVerificationCache {
        credential_id: cred,
        slice_id,
        is_attested: attested,
        cached_at: now,
        expires_at: sat_add(now as int, VERIFICATION_CACHE_TTL_SECS as int) as u64,
    }
}

impl QuorumProofContract {
    /// Credential `cred` does not count as attested at `now`: it is revoked,
    /// suspended, expired, or past the attestation expiry set for it.
    pub open spec fn credential_lapsed(&self, now: u64, cred: u64) -> bool {
        let c = self.credential_at(cred);
        ||| c.revoked
        ||| c.suspended
        ||| (c.expires_at matches Some(e) && now >= e)
        ||| (self.cred_data.attestation_expiry@.contains_key(cred) && now >= self.cred_data.attestation_expiry@[cred])
    }

    /// The weight of the unexpired attestations of members of the slice who
    /// are not suspended, summed with saturation.
    pub open spec fn attested_weight_in(&self, now: u64, cred: u64, slice_id: u64) -> int {
        attested_weight(self.slice_at(slice_id), self.slice_data.suspended@, slice_id, true, now, self.records_of(cred))
    }

    /// The attested weight reaches the slice's threshold.
    pub open spec fn quorum_met(&self, now: u64, cred: u64, slice_id: u64) -> bool {
        self.attested_weight_in(now, cred, slice_id) >= self.slice_at(slice_id).threshold
    }

    /// The total weight a consensus decision records: the cached total when
    /// there is one, else the sum of the weights when it fits in a u32.
    pub open spec fn decision_total_weight(&self, slice_id: u64) -> Option<u32> {
        if self.caches.slice_weight@.contains_key(slice_id) {
            Some(self.caches.slice_weight@[slice_id])
        } else if weight_total(self.slice_at(slice_id).weights@) <= u32::MAX {
            Some(weight_total(self.slice_at(slice_id).weights@) as u32)
        } else {
            None
        }
    }

    /// The decision `is_attested` records when the quorum is met.
    pub open spec fn consensus_decision(&self, now: u64, cred: u64, slice_id: u64) -> ConsensusDecision {
        ConsensusDecision {
            decision_id: (list_at(self.slice_data.consensus_history@, slice_id).len() + 1) as u64,
            slice_id,
            credential_id: cred,
            timestamp: now,
            required_weight_threshold: self.slice_at(slice_id).threshold,
            achieved_weight: self.attested_weight_in(now, cred, slice_id) as u32,
            total_weight: self.decision_total_weight(slice_id)->Some_0,
        }
    }

    /// What `is_attested` answers: `false` for a lapsed credential, and
    /// whether the attested weight reaches the threshold for a live one,
    /// both judged from the state at `now`.
    pub open spec fn is_attested_outcome(&self, now: u64, cred: u64, slice_id: u64) -> Result<bool, Fault> {
        if !self.has_credential(cred) {
            Err(Fault::Contract(ContractError::CredentialNotFound))
        } else if self.credential_lapsed(now, cred) {
            Ok(false)
        } else if !self.has_slice(slice_id) {
            Err(Fault::Contract(ContractError::SliceNotFound))
        } else if self.quorum_met(now, cred, slice_id) && (self.decision_total_weight(slice_id) is None
            || list_at(self.slice_data.consensus_history@, slice_id).len() >= u64::MAX) {
            Err(Fault::Abort(Abort::ArithmeticOverflow))
        } else {
            Ok(self.quorum_met(now, cred, slice_id))
        }
    }

    /// `is_attested` computed a verdict afresh, which it then records.
    pub open spec fn is_attested_computes(&self, now: u64, cred: u64, slice_id: u64) -> bool {
        &&& self.has_credential(cred)
        &&& !self.credential_lapsed(now, cred)
        &&& self.is_attested_outcome(now, cred, slice_id) is Ok
    }

    /// What a verdict computed afresh writes: the verdict is cached for a
    /// minute, and a met quorum is appended to the slice's consensus history.
    pub open spec fn verdict_recorded(&self, b: QuorumProofContract, now: u64, cred: u64, slice_id: u64) -> bool {
        let met = self.quorum_met(now, cred, slice_id);
        &&& b.caches.verification@ == self.caches.verification@.insert(pair_key(cred, slice_id), verification_entry(now, cred, slice_id, met))
        &&& b.caches.revocation == self.caches.revocation
        &&& b.caches.metadata == self.caches.metadata
        &&& b.caches.slice_weight == self.caches.slice_weight
        &&& met ==> list_at(b.slice_data.consensus_history@, slice_id)
            == list_at(self.slice_data.consensus_history@, slice_id).push(self.consensus_decision(now, cred, slice_id))
            && only_key_set(self.slice_data.consensus_history@, b.slice_data.consensus_history@, slice_id)
        &&& !met ==> b.slice_data.consensus_history == self.slice_data.consensus_history
        &&& b.slice_data.threshold_audit == self.slice_data.threshold_audit
        &&& b.slice_data.messages == self.slice_data.messages
        &&& b.slice_data.suspended == self.slice_data.suspended
        &&& only_changed(*self, b, set![Part::Caches, Part::SliceData])
    }

    /// Whether credential `credential_id` is attested through slice
    /// `slice_id` at `now`: the weights of the members who attested, whose
    /// attestation has not expired and who are not suspended, summed, reach
    /// the slice's threshold. A revoked, suspended or expired credential is
    /// not attested. The verdict is always computed from the current state;
    /// it is then cached, and a met quorum is recorded in the slice's
    /// consensus history.
    pub fn is_attested(&mut self, now: u64, credential_id: u64, slice_id: u64) -> (r: Result<bool, Fault>)
        requires
            old(self).wf(),
        ensures
            final(self).wf(),
            r == old(self).is_attested_outcome(now, credential_id, slice_id),
            !old(self).is_attested_computes(now, credential_id, slice_id) ==> *final(self) == *old(self),
            old(self).is_attested_computes(now, credential_id, slice_id) ==> old(self).verdict_recorded(
                *final(self), now, credential_id, slice_id),
    {
        let i = match self.find_credential(credential_id) {
            Some(i) => i,
            None => { return Err(Fault::Contract(ContractError::CredentialNotFound)); },
        };
        if self.credentials[i].revoked || self.credentials[i].suspended {
            return Ok(false);
        }
        if let Some(e) = self.credentials[i].expires_at {
            if now >= e {
                return Ok(false);
            }
        }
        if let Some(e) = self.cred_data.attestation_expiry.get(&credential_id) {
            if now >= *e {
                return Ok(false);
            }
        }
        let si = match self.find_slice(slice_id) {
            Some(si) => si,
            None => { return Err(Fault::Contract(ContractError::SliceNotFound)); },
        };
        let empty: Vec<AttestationRecord> = Vec::new();
        let records = match self.attestations.get(&credential_id) {
            Some(v) => v,
            None => &empty,
        };
        assert(records@ == self.records_of(credential_id));
        let weight = compute_attested_weight(&self.slices[si], &self.slice_data.suspended, slice_id, true, now, records);
        let met = weight >= self.slices[si].threshold;
        if met {
            let total = match self.caches.slice_weight.get(&slice_id) {
                Some(t) => *t,
                None => {
                    let t = total_weight(&self.slices[si].weights);
                    proof { lemma_weight_total_nonneg(self.slices@[si as int].weights@); }
                    if t == u32::MAX && weight_sum_exceeds(&self.slices[si].weights) {
                        return Err(Fault::Abort(Abort::ArithmeticOverflow));
                    }
                    t
                },
            };
            let history_len: usize = match self.slice_data.consensus_history.get(&slice_id) {
                Some(h) => h.len(),
                None => 0,
            };
            if history_len as u64 == u64::MAX {
                return Err(Fault::Abort(Abort::ArithmeticOverflow));
            }
            let decision = ConsensusDecision {
                decision_id: history_len as u64 + 1,
                slice_id,
                credential_id,
                timestamp: now,
                required_weight_threshold: self.slices[si].threshold,
                achieved_weight: weight,
                total_weight: total,
            };
            push_at(&mut self.slice_data.consensus_history, slice_id, decision);
        }
        self.caches.verification.insert(
            pack_pair(credential_id, slice_id),
            AttestationVerificationCache {
                credential_id,
                slice_id,
                is_attested: met,
                cached_at: now,
                expires_at: now.saturating_add(VERIFICATION_CACHE_TTL_SECS),
            },
        );
        Ok(met)
    }
}

/// The attestation verdict of one (credential, slice) pair in a batch:
/// false when the credential or slice is missing or the credential has
/// lapsed; otherwise whether the quorum is met, as `is_attested` judges it:
/// the unexpired attestations of slice members not suspended in the slice
/// reach the threshold.
pub open spec fn batch_verdict(c: QuorumProofContract, now: u64, cred: u64, slice_id: u64) -> bool {
    if !c.has_credential(cred) || c.credential_lapsed(now, cred) || !c.has_slice(slice_id) {
        false
    } else {
        c.quorum_met(now, cred, slice_id)
    }
}

/// Whether `a` made one of the records.
pub open spec fn signed_by(records: Seq<AttestationRecord>, a: Address) -> bool {
    exists|i: int| 0 <= i < records.len() && #[trigger] records[i].attestor == a
}

/// The number of `CredentialAttested` entries in an activity log.
pub open spec fn attested_entries(s: Seq<ActivityRecord>) -> int
    decreases s.len(),
{
    if s.len() == 0 {
        0
    } else if s.last().activity_type == ActivityType::CredentialAttested {
        attested_entries(s.drop_last()) + 1
    } else {
        attested_entries(s.drop_last())
    }
}

/// The earliest timestamp of a `CredentialAttested` entry, if there is one.
pub open spec fn oldest_attested(s: Seq<ActivityRecord>) -> Option<u64>
    decreases s.len(),
{
    if s.len() == 0 {
        None
    } else if s.last().activity_type == ActivityType::CredentialAttested {
        match oldest_attested(s.drop_last()) {
            Some(t) => Some(if t <= s.last().timestamp { t } else { s.last().timestamp }),
            None => Some(s.last().timestamp),
        }
    } else {
        oldest_attested(s.drop_last())
    }
}

/// The share of successful verifications, in percent, with the
/// multiplication saturating; 0 when there were none.
pub open spec fn success_rate(successful: u64, total: u64) -> int {
    if total > 0 {
        (if successful * 100 <= u64::MAX { successful * 100 } else { u64::MAX as int }) / total as int
    } else {
        0
    }
}

/// `x`, saturating at `u64::MAX`.
pub open spec fn sat_u64(x: int) -> int {
    if x <= u64::MAX { x } else { u64::MAX as int }
}

/// The reputation scoring configuration in force: the stored one, else the defaults.
pub open spec fn reputation_config_of(c: QuorumProofContract) -> HolderReputationConfig {
    match c.config.reputation_config {
        Some(cfg) => cfg,
        None => HolderReputationConfig {
            attestation_weight: DEFAULT_REPUTATION_ATTESTATION_WEIGHT,
            age_weight: DEFAULT_REPUTATION_AGE_WEIGHT,
            age_divisor_seconds: DEFAULT_REPUTATION_AGE_DIVISOR_SECONDS,
        },
    }
}

/// The reputation score: the attestation weight times the number of
/// attestations, plus the age weight times the number of whole age buckets
/// since the oldest attestation; each product and the sum saturate.
pub open spec fn reputation_score(cfg: HolderReputationConfig, attestations: u64, age: u64) -> int {
    let buckets = if cfg.age_divisor_seconds > 0 { age / cfg.age_divisor_seconds } else { 0 };
    sat_add(sat_u64(cfg.attestation_weight * attestations), sat_u64(cfg.age_weight * buckets))
}

/// A holder's reputation: how many credentials the holder's legacy list
/// holds; the verifications, where every attestation the activity log
/// records counts as a successful one besides the counted verifications,
/// with their success rate; how many attestations the log records and how
/// long ago the oldest was made; and the score `reputation_score` gives.
pub open spec fn reputation_of(c: QuorumProofContract, now: u64, holder: Address) -> HolderReputation {
    let log = c.activity_of(holder);
    let count = (if attested_entries(log) <= u64::MAX { attested_entries(log) } else { u64::MAX as int }) as u64;
    let age: u64 = match oldest_attested(log) {
        Some(t) => if now >= t { (now - t) as u64 } else { 0 },
        None => 0,
    };
    let ok = sat_add(count_at(c.holders.successful_verifications@, holder.0), count as int);
    let failed = count_at(c.holders.failed_verifications@, holder.0);
    let total = sat_add(ok, failed);
    let rate = success_rate(ok as u64, total as u64);
    HolderReputation {
        credentials_held: list_at(c.indexes.subject_credentials@, holder.0).len() as u64,
        successful_verifications: ok as u64,
        failed_verifications: failed as u64,
        total_verifications: total as u64,
        verification_success_rate: rate as u64,
        attestation_count: count,
        attestation_age_seconds: age,
        score: reputation_score(reputation_config_of(c), count, age) as u64,
    }
}

impl QuorumProofContract {
    /// Counts one verification of the holder's credential, successful or failed,
    /// the counter saturating.
    pub fn record_verification_attempt(&mut self, holder: Address, success: bool)
        ensures
            success ==> final(self).holders.successful_verifications@ == old(self).holders.successful_verifications@.insert(
                holder.0, sat_add(count_at(old(self).holders.successful_verifications@, holder.0), 1) as u64)
                && final(self).holders.failed_verifications == old(self).holders.failed_verifications,
            !success ==> final(self).holders.failed_verifications@ == old(self).holders.failed_verifications@.insert(
                holder.0, sat_add(count_at(old(self).holders.failed_verifications@, holder.0), 1) as u64)
                && final(self).holders.successful_verifications == old(self).holders.successful_verifications,
            final(self).holders.attestor_counts == old(self).holders.attestor_counts,
            final(self).holders.holder_attestation_counts == old(self).holders.holder_attestation_counts,
            final(self).holders.slash_counts == old(self).holders.slash_counts,
            final(self).holders.activity == old(self).holders.activity,
            final(self).holders.notifications == old(self).holders.notifications,
            final(self).holders.reputation_recoveries == old(self).holders.reputation_recoveries,
            only_changed(*old(self), *final(self), set![Part::Holders]),
    {
        if success {
            let c = read_count(&self.holders.successful_verifications, holder.0);
            self.holders.successful_verifications.insert(holder.0, c.saturating_add(1));
        } else {
            let c = read_count(&self.holders.failed_verifications, holder.0);
            self.holders.failed_verifications.insert(holder.0, c.saturating_add(1));
        }
    }

    /// Answers `is_attested` for a stored credential and counts the answer
    /// as a successful or failed verification of its subject.
    pub fn verify_credential(&mut self, now: u64, credential_id: u64, slice_id: u64) -> (r: Result<bool, Fault>)
        requires
            old(self).wf(),
        ensures
            final(self).wf(),
            !old(self).has_credential(credential_id) ==> r == Err::<bool, Fault>(Fault::Contract(ContractError::CredentialNotFound))
                && *final(self) == *old(self),
            old(self).has_credential(credential_id) ==> r == old(self).is_attested_outcome(now, credential_id, slice_id),
            r is Err ==> *final(self) == *old(self),
            r matches Ok(b) ==> {
                let holder = old(self).credential_at(credential_id).subject;
                let ok = count_at(old(self).holders.successful_verifications@, holder.0);
                let failed = count_at(old(self).holders.failed_verifications@, holder.0);
                &&& b ==> final(self).holders.successful_verifications@ == old(self).holders.successful_verifications@.insert(
                    holder.0, sat_add(ok, 1) as u64)
                    && final(self).holders.failed_verifications == old(self).holders.failed_verifications
                &&& !b ==> final(self).holders.failed_verifications@ == old(self).holders.failed_verifications@.insert(
                    holder.0, sat_add(failed, 1) as u64)
                    && final(self).holders.successful_verifications == old(self).holders.successful_verifications
                &&& old(self).is_attested_computes(now, credential_id, slice_id) ==> final(self).caches.verification@
                    == old(self).caches.verification@.insert(pair_key(credential_id, slice_id),
                        verification_entry(now, credential_id, slice_id, b))
                &&& !old(self).is_attested_computes(now, credential_id, slice_id) ==> final(self).caches == old(self).caches
                    && final(self).slice_data == old(self).slice_data
                &&& old(self).is_attested_computes(now, credential_id, slice_id) && b ==> list_at(
                    final(self).slice_data.consensus_history@, slice_id) == list_at(
                    old(self).slice_data.consensus_history@, slice_id).push(old(self).consensus_decision(now, credential_id, slice_id))
                &&& only_changed(*old(self), *final(self), set![Part::Caches, Part::SliceData, Part::Holders])
            },
    {
        let i = match self.find_credential(credential_id) {
            Some(i) => i,
            None => { return Err(Fault::Contract(ContractError::CredentialNotFound)); },
        };
        let holder = self.credentials[i].subject;
        let result = self.is_attested(now, credential_id, slice_id)?;
        self.record_verification_attempt(holder, result);
        Ok(result)
    }

    /// The verdict for each (credential, slice) pair, as `batch_verdict` gives
    /// it. The lists must have the same length, between 1 and `MAX_BATCH_SIZE`.
    pub fn verify_attestations_batch(&self, now: u64, credential_ids: &Vec<u64>, slice_ids: &Vec<u64>) -> (r: Result<Vec<bool>, Fault>)
        ensures
            credential_ids.len() < 1 ==> r == Err::<Vec<bool>, Fault>(Fault::Abort(Abort::TooFewElements)),
            credential_ids.len() > MAX_BATCH_SIZE ==> r == Err::<Vec<bool>, Fault>(Fault::Abort(Abort::TooManyElements)),
            1 <= credential_ids.len() <= MAX_BATCH_SIZE && credential_ids.len() != slice_ids.len()
                ==> r == Err::<Vec<bool>, Fault>(Fault::Abort(Abort::LengthMismatch)),
            1 <= credential_ids.len() <= MAX_BATCH_SIZE && credential_ids.len() == slice_ids.len() ==> (r matches Ok(v)
                && v.len() == credential_ids.len()
                && forall|k: int| 0 <= k < v.len() ==> #[trigger] v@[k] == batch_verdict(*self, now, credential_ids@[k], slice_ids@[k])),
    {
        if credential_ids.len() < 1 {
            return Err(Fault::Abort(Abort::TooFewElements));
        }
        if credential_ids.len() > MAX_BATCH_SIZE as usize {
            return Err(Fault::Abort(Abort::TooManyElements));
        }
        if credential_ids.len() != slice_ids.len() {
            return Err(Fault::Abort(Abort::LengthMismatch));
        }
        let mut out: Vec<bool> = Vec::new();
        let mut k: usize = 0;
        while k < credential_ids.len()
            invariant
                k <= credential_ids.len(),
                credential_ids.len() == slice_ids.len(),
                out.len() == k,
                forall|j: int| 0 <= j < k ==> #[trigger] out@[j] == batch_verdict(*self, now, credential_ids@[j], slice_ids@[j]),
            decreases credential_ids.len() - k,
        {
            let cred = credential_ids[k];
            let slice_id = slice_ids[k];
            let verdict = match self.find_credential(cred) {
                None => false,
                Some(i) => {
                    let c = &self.credentials[i];
                    let expired = match c.expires_at {
                        Some(e) => now >= e,
                        None => false,
                    };
                    let attest_expired = match self.cred_data.attestation_expiry.get(&cred) {
                        Some(e) => now >= *e,
                        None => false,
                    };
                    if c.revoked || c.suspended || expired || attest_expired {
                        false
                    } else {
                        match self.find_slice(slice_id) {
                            None => false,
                            Some(si) => {
                                let empty: Vec<AttestationRecord> = Vec::new();
                                let records = match self.attestations.get(&cred) {
                                    Some(v) => v,
                                    None => &empty,
                                };
                                assert(records@ == self.records_of(cred));
                                let w = compute_attested_weight(&self.slices[si], &self.slice_data.suspended, slice_id, true, now, records);
                                w >= self.slices[si].threshold
                            },
                        }
                    }
                },
            };
            out.push(verdict);
            k += 1;
        }
        Ok(out)
    }

    /// For each attestor of the slice, in the slice's order, whether it has
    /// attested the credential.
    pub fn get_slice_attestation_status(&self, credential_id: u64, slice_id: u64) -> (r: Result<Vec<(Address, bool)>, Fault>)
        requires
            self.wf(),
        ensures
            !self.has_credential(credential_id) ==> r == Err::<Vec<(Address, bool)>, Fault>(Fault::Contract(ContractError::CredentialNotFound)),
            self.has_credential(credential_id) && !self.has_slice(slice_id)
                ==> r == Err::<Vec<(Address, bool)>, Fault>(Fault::Contract(ContractError::SliceNotFound)),
            self.has_credential(credential_id) && self.has_slice(slice_id) ==> (r matches Ok(v)
                && v.len() == self.slice_at(slice_id).attestors.len()
                && forall|k: int| 0 <= k < v.len() ==> #[trigger] v@[k] == (self.slice_at(slice_id).attestors@[k],
                    signed_by(self.records_of(credential_id), self.slice_at(slice_id).attestors@[k]))),
    {
        if self.find_credential(credential_id).is_none() {
            return Err(Fault::Contract(ContractError::CredentialNotFound));
        }
        let si = match self.find_slice(slice_id) {
            Some(si) => si,
            None => { return Err(Fault::Contract(ContractError::SliceNotFound)); },
        };
        let empty: Vec<AttestationRecord> = Vec::new();
        let records = match self.attestations.get(&credential_id) {
            Some(v) => v,
            None => &empty,
        };
        assert(records@ == self.records_of(credential_id));
        let attestors = &self.slices[si].attestors;
        let mut out: Vec<(Address, bool)> = Vec::new();
        let mut k: usize = 0;
        while k < attestors.len()
            invariant
                k <= attestors.len(),
                out.len() == k,
                forall|j: int| 0 <= j < k ==> #[trigger] out@[j] == (attestors@[j], signed_by(records@, attestors@[j])),
            decreases attestors.len() - k,
        {
            let a = attestors[k];
            let signed = crate::quorum::attested_by(records, a);
            out.push((a, signed));
            k += 1;
        }
        Ok(out)
    }

    /// The holder's reputation at `now`, as `reputation_of` gives it.
    pub fn get_holder_reputation(&self, now: u64, holder: Address) -> (rep: HolderReputation)
        ensures
            rep == reputation_of(*self, now, holder),
    {
        let (credentials_held, successful_verifications, failed_verifications, total_verifications,
            attestation_count, attestation_age_seconds, score) = self.compute_holder_reputation(now, holder);
        let scaled: u64 = if successful_verifications <= u64::MAX / 100 { successful_verifications * 100 } else { u64::MAX };
        let verification_success_rate = if total_verifications > 0 { scaled / total_verifications } else { 0 };
        HolderReputation {
            credentials_held,
            successful_verifications,
            failed_verifications,
            total_verifications,
            verification_success_rate,
            attestation_count,
            attestation_age_seconds,
            score,
        }
    }

    /// The parts of the holder's reputation at `now`: credentials held,
    /// successful, failed and total verifications, attestations recorded,
    /// the age of the oldest, and the score.
    pub fn compute_holder_reputation(&self, now: u64, holder: Address) -> (t: (u64, u64, u64, u64, u64, u64, u64))
        ensures
            ({
                let rep = reputation_of(*self, now, holder);
                t == (rep.credentials_held, rep.successful_verifications, rep.failed_verifications, rep.total_verifications,
                    rep.attestation_count, rep.attestation_age_seconds, rep.score)
            }),
    {
        let empty: Vec<ActivityRecord> = Vec::new();
        let log = match self.holders.activity.get(&holder.0) {
            Some(v) => v,
            None => &empty,
        };
        assert(log@ == self.activity_of(holder));
        let mut count: u64 = 0;
        let mut oldest: Option<u64> = None;
        let mut i: usize = 0;
        while i < log.len()
            invariant
                i <= log.len(),
                count == (if attested_entries(log@.take(i as int)) <= u64::MAX { attested_entries(log@.take(i as int)) } else { u64::MAX as int }),
                oldest == oldest_attested(log@.take(i as int)),
            decreases log.len() - i,
        {
            proof {
                assert(log@.take(i as int + 1).drop_last() =~= log@.take(i as int));
                lemma_attested_entries_nonneg(log@.take(i as int));
            }
            if log[i].activity_type == ActivityType::CredentialAttested {
                count = count.saturating_add(1);
                oldest = Some(match oldest {
                    Some(t) => if t <= log[i].timestamp { t } else { log[i].timestamp },
                    None => log[i].timestamp,
                });
            }
            i += 1;
        }
        assert(log@.take(log.len() as int) =~= log@);
        let age = match oldest {
            Some(t) => now.saturating_sub(t),
            None => 0,
        };
        let ok = read_count(&self.holders.successful_verifications, holder.0).saturating_add(count);
        let failed = read_count(&self.holders.failed_verifications, holder.0);
        let total = ok.saturating_add(failed);
        let cfg = self.get_holder_reputation_config();
        let by_count: u64 = match cfg.attestation_weight.checked_mul(count) {
            Some(v) => v,
            None => u64::MAX,
        };
        let buckets: u64 = if cfg.age_divisor_seconds > 0 { age / cfg.age_divisor_seconds } else { 0 };
        let by_age: u64 = match cfg.age_weight.checked_mul(buckets) {
            Some(v) => v,
            None => u64::MAX,
        };
        let score = by_count.saturating_add(by_age);
        let held: usize = match self.indexes.subject_credentials.get(&holder.0) {
            Some(v) => v.len(),
            None => 0,
        };
        (held as u64, ok, failed, total, count, age, score)
    }
}

/// Link `j` of a chain of proof verifications: the credential, when it is
/// stored, is answered by `is_attested` in `states[j]`, which turns it into
/// `states[j + 1]`; a credential that is not stored changes nothing.
pub open spec fn proof_link(states: Seq<QuorumProofContract>, j: int, now: u64, cred: u64, slice_id: u64) -> bool {
    let s = states[j];
    let t = states[j + 1];
    if !s.has_credential(cred) {
        t == s
    } else {
        &&& s.is_attested_outcome(now, cred, slice_id) is Ok
        &&& s.is_attested_computes(now, cred, slice_id) ==> s.verdict_recorded(t, now, cred, slice_id)
        &&& !s.is_attested_computes(now, cred, slice_id) ==> t == s
    }
}

/// `states` are the states that verifying the first `n` proofs passes through.
pub open spec fn proof_chain(states: Seq<QuorumProofContract>, now: u64, creds: Seq<u64>, slices: Seq<u64>, n: int) -> bool {
    &&& states.len() == n + 1
    &&& forall|j: int| 0 <= j < n ==> #[trigger] proof_link(states, j, now, creds[j], slices[j])
}

/// The entry of one proof: the credential id, whether it is attested, and
/// whether the proof has expired; a credential that is not stored is not
/// attested and its proof counts as expired.
pub open spec fn proof_entry(s: QuorumProofContract, now: u64, cred: u64, slice_id: u64, proof_expires_at: u64) -> (u64, bool, bool) {
    if s.has_credential(cred) {
        (cred, s.is_attested_outcome(now, cred, slice_id)->Ok_0, now >= proof_expires_at)
    } else {
        (cred, false, true)
    }
}

/// `b` holds what `a` holds: the verification cache and the consensus
/// histories have the same entries and every other part is equal.
pub open spec fn verdicts_restored(a: QuorumProofContract, b: QuorumProofContract) -> bool {
    &&& b.caches.verification@ == a.caches.verification@
    &&& b.caches.revocation == a.caches.revocation
    &&& b.caches.metadata == a.caches.metadata
    &&& b.caches.slice_weight == a.caches.slice_weight
    &&& b.slice_data.consensus_history@ == a.slice_data.consensus_history@
    &&& b.slice_data.threshold_audit == a.slice_data.threshold_audit
    &&& b.slice_data.messages == a.slice_data.messages
    &&& b.slice_data.suspended == a.slice_data.suspended
    &&& only_changed(a, b, set![Part::Caches, Part::SliceData])
}

impl QuorumProofContract {
    /// For each (credential, slice, proof expiry) triple, in order, the
    /// credential id, whether it is attested (as `is_attested` answers,
    /// recording what it records) and whether the proof has expired. The
    /// three lists must have the same length, between 1 and
    /// `MAX_BATCH_SIZE`. When one `is_attested` call is refused the whole
    /// call is, and the contract keeps what it held.
    pub fn batch_verify_proofs(
        &mut self,
        now: u64,
        credential_ids: &Vec<u64>,
        slice_ids: &Vec<u64>,
        proof_expires_at_list: &Vec<u64>,
    ) -> (r: Result<Vec<(u64, bool, bool)>, Fault>)
        requires
            old(self).wf(),
        ensures
            final(self).wf(),
            credential_ids.len() < 1 ==> r == Err::<Vec<(u64, bool, bool)>, Fault>(
                Fault::Abort(Abort::TooFewElements)) && *final(self) == *old(self),
            credential_ids.len() > MAX_BATCH_SIZE ==> r == Err::<Vec<(u64, bool, bool)>, Fault>(
                Fault::Abort(Abort::TooManyElements)) && *final(self) == *old(self),
            1 <= credential_ids.len() <= MAX_BATCH_SIZE && (credential_ids.len() != slice_ids.len()
                || credential_ids.len() != proof_expires_at_list.len()) ==> r == Err::<Vec<(u64, bool, bool)>, Fault>(
                Fault::Abort(Abort::LengthMismatch)) && *final(self) == *old(self),
            r matches Ok(v) ==> v.len() == credential_ids.len() && exists|states: Seq<QuorumProofContract>|
                #[trigger] proof_chain(states, now, credential_ids@, slice_ids@, credential_ids.len() as int)
                && states[0] == *old(self) && states.last() == *final(self)
                && forall|k: int| 0 <= k < v.len() ==> #[trigger] v@[k] == proof_entry(states[k], now,
                    credential_ids@[k], slice_ids@[k], proof_expires_at_list@[k]),
            r matches Err(f) ==> verdicts_restored(*old(self), *final(self)) && (f == Fault::Abort(Abort::TooFewElements)
                || f == Fault::Abort(Abort::TooManyElements) || f == Fault::Abort(Abort::LengthMismatch) || exists|j: int, states: Seq<QuorumProofContract>|
                0 <= j < credential_ids.len() && #[trigger] proof_chain(states, now, credential_ids@, slice_ids@, j)
                && states[0] == *old(self) && states.last().has_credential(credential_ids@[j])
                && states.last().is_attested_outcome(now, credential_ids@[j], slice_ids@[j]) == Err::<bool, Fault>(f)),
    {
        if credential_ids.len() < 1 {
            return Err(Fault::Abort(Abort::TooFewElements));
        }
        if credential_ids.len() > MAX_BATCH_SIZE as usize {
            return Err(Fault::Abort(Abort::TooManyElements));
        }
        if credential_ids.len() != slice_ids.len() || credential_ids.len() != proof_expires_at_list.len() {
            return Err(Fault::Abort(Abort::LengthMismatch));
        }
        let saved_cache = self.caches.verification.clone();
        let saved_history = self.slice_data.consensus_history.clone();
        let ghost mut states: Seq<QuorumProofContract> = seq![*self];
        let mut out: Vec<(u64, bool, bool)> = Vec::new();
        let mut k: usize = 0;
        while k < credential_ids.len()
            invariant
                self.wf(),
                k <= credential_ids.len(),
                1 <= credential_ids.len() <= MAX_BATCH_SIZE,
                credential_ids.len() == slice_ids.len(),
                credential_ids.len() == proof_expires_at_list.len(),
                proof_chain(states, now, credential_ids@, slice_ids@, k as int),
                states[0] == *old(self),
                states.last() == *self,
                saved_cache@ == old(self).caches.verification@,
                saved_history@ == old(self).slice_data.consensus_history@,
                only_changed(*old(self), *self, set![Part::Caches, Part::SliceData]),
                self.caches.revocation == old(self).caches.revocation,
                self.caches.metadata == old(self).caches.metadata,
                self.caches.slice_weight == old(self).caches.slice_weight,
                self.slice_data.threshold_audit == old(self).slice_data.threshold_audit,
                self.slice_data.messages == old(self).slice_data.messages,
                self.slice_data.suspended == old(self).slice_data.suspended,
                out.len() == k,
                forall|j: int| 0 <= j < k ==> #[trigger] out@[j] == proof_entry(states[j], now,
                    credential_ids@[j], slice_ids@[j], proof_expires_at_list@[j]),
            decreases credential_ids.len() - k,
        {
            let cred = credential_ids[k];
            let slice_id = slice_ids[k];
            let ghost before = states;
            let entry = if self.find_credential(cred).is_some() {
                match self.is_attested(now, cred, slice_id) {
                    Ok(b) => (cred, b, now >= proof_expires_at_list[k]),
                    Err(f) => {
                        proof {
                            assert(proof_chain(before, now, credential_ids@, slice_ids@, k as int));
                        }
                        self.caches.verification = saved_cache;
                        self.slice_data.consensus_history = saved_history;
                        return Err(f);
                    },
                }
            } else {
                (cred, false, true)
            };
            proof {
                states = states.push(*self);
                assert forall|j: int| 0 <= j < k + 1 implies #[trigger] proof_link(states, j, now, credential_ids@[j], slice_ids@[j]) by {
                    if j < k {
                        assert(proof_link(before, j, now, credential_ids@[j], slice_ids@[j]));
                        assert(states[j] == before[j] && states[j + 1] == before[j + 1]);
                    }
                }
                assert(entry == proof_entry(states[k as int], now, cred, slice_id, proof_expires_at_list@[k as int]));
            }
            out.push(entry);
            proof {
                assert forall|j: int| 0 <= j < k + 1 implies #[trigger] out@[j] == proof_entry(states[j], now,
                    credential_ids@[j], slice_ids@[j], proof_expires_at_list@[j]) by {
                    if j < k {
                        assert(states[j] == before[j]);
                    }
                }
            }
            k += 1;
        }
        Ok(out)
    }
}

proof fn lemma_attested_entries_nonneg(s: Seq<ActivityRecord>)
    ensures
        0 <= attested_entries(s) <= s.len(),
    decreases s.len(),
{
    if s.len() > 0 {
        lemma_attested_entries_nonneg(s.drop_last());
    }
}

/// Whether the weights sum to more than `u32::MAX`.
pub fn weight_sum_exceeds(weights: &Vec<u32>) -> (b: bool)
    ensures
        b == (weight_total(weights@) > u32::MAX),
{
    let mut total: u64 = 0;
    let mut i: usize = 0;
    while i < weights.len()
        invariant
            i <= weights.len(),
            total == cap_u32(weight_total(weights@.take(i as int))) || (total == u32::MAX as u64 + 1
                && weight_total(weights@.take(i as int)) > u32::MAX),
            total <= u32::MAX as u64 + 1,
            total == u32::MAX as u64 + 1 <==> weight_total(weights@.take(i as int)) > u32::MAX,
        decreases weights.len() - i,
    {
        proof {
            assert(weights@.take(i as int + 1).drop_last() =~= weights@.take(i as int));
            lemma_weight_total_nonneg(weights@.take(i as int));
        }
        if total <= u32::MAX as u64 {
            total = total + weights[i] as u64;
            if total > u32::MAX as u64 {
                total = u32::MAX as u64 + 1;
            }
        }
        i += 1;
    }
    assert(weights@.take(weights.len() as int) =~= weights@);
    total > u32::MAX as u64
}

} // verus!
