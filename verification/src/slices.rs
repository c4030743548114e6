use vstd::prelude::*;
use crate::admin::admin_failure;
use crate::checks::MAX_ATTESTORS_PER_SLICE;
use crate::caches::slice_cache_keys;
use crate::errors::{Abort, ContractError, Fault};
use crate::quorum::{cap_u32, weight_total, total_weight, contains_address, find_address, is_first_index, lemma_first_index, is_suspended_in, suspended_in};
use crate::state::{pack_pair, pair_key, only_changed, holders_changed, HolderField, Part, QuorumProofContract, Caches, SliceData};
use crate::store::{list_at, only_key_set, push_at};
use crate::types::{Address, QuorumSlice, SliceMessage, ThresholdAuditEntry};

verus! {

broadcast use vstd::std_specs::hash::group_hash_axioms;

/// The caches, of which only the slice's cached total weight changed to `w`.
pub open spec fn weight_cache_set(a: Caches, b: Caches, slice_id: u64, w: u32) -> bool {
    &&& b.slice_weight@ == a.slice_weight@.insert(slice_id, w)
    &&& b.verification == a.verification
    &&& b.revocation == a.revocation
    &&& b.metadata == a.metadata
}

/// The caches after a change to slice `slice_id`'s attestors: its total
/// weight is `w`, and no verification of it is cached for credentials 1 to `n`.
pub open spec fn slice_caches_reset(a: Caches, b: Caches, slice_id: u64, w: u32, n: int) -> bool {
    &&& b.slice_weight@ == a.slice_weight@.insert(slice_id, w)
    &&& b.verification@ == a.verification@.remove_keys(slice_cache_keys(slice_id, n))
    &&& b.revocation == a.revocation
    &&& b.metadata == a.metadata
}

/// The slice data, of which only the suspension table changed.
pub open spec fn only_suspensions_changed(a: SliceData, b: SliceData) -> bool {
    &&& b.consensus_history == a.consensus_history
    &&& b.threshold_audit == a.threshold_audit
    &&& b.messages == a.messages
}

/// The messages that have not expired at `now`, order kept.
pub open spec fn live_messages(s: Seq<SliceMessage>, now: u64) -> Seq<SliceMessage>
    decreases s.len(),
{
    if s.len() == 0 {
        s
    } else if s.last().expires_at > now {
        live_messages(s.drop_last(), now).push(s.last())
    } else {
        live_messages(s.drop_last(), now)
    }
}

/// Two messages agree in every field.
pub open spec fn same_message(a: SliceMessage, b: SliceMessage) -> bool {
    &&& a.sender == b.sender
    &&& a.content@ == b.content@
    &&& a.sent_at == b.sent_at
    &&& a.expires_at == b.expires_at
}

/// Copies a message.
pub fn copy_message(m: &SliceMessage) -> (r: SliceMessage)
    ensures
        r.sender == m.sender,
        r.content@ == m.content@,
        r.sent_at == m.sent_at,
        r.expires_at == m.expires_at,
{
    SliceMessage { sender: m.sender, content: m.content.clone(), sent_at: m.sent_at, expires_at: m.expires_at }
}

impl QuorumProofContract {
    /// Slice `id` is stored.
    pub open spec fn has_slice(&self, id: u64) -> bool {
        1 <= id <= self.slices.len()
    }

    /// Slice `id` (meaningful when it is stored).
    pub open spec fn slice_at(&self, id: u64) -> QuorumSlice {
        self.slices[id - 1]
    }

    /// The position of slice `id`, if it is stored.
    pub fn find_slice(&self, id: u64) -> (r: Option<usize>)
        ensures
            match r {
                Some(i) => self.has_slice(id) && i == id - 1,
                None => !self.has_slice(id),
            },
    {
        if id >= 1 && id - 1 < self.slices.len() as u64 {
            Some((id - 1) as usize)
        } else {
            None
        }
    }

    /// The first reason to refuse `create_slice`; `None` when it succeeds.
    pub open spec fn create_slice_failure(&self, attestors: Seq<Address>, weights: Seq<u32>, threshold: u32) -> Option<Fault> {
        if attestors.len() == 0 {
            Some(Fault::Abort(Abort::InvalidArgument))
        } else if attestors.len() > MAX_ATTESTORS_PER_SLICE {
            Some(Fault::Abort(Abort::InvalidArgument))
        } else if weights.len() != attestors.len() {
            Some(Fault::Abort(Abort::LengthMismatch))
        } else if threshold == 0 {
            Some(Fault::Abort(Abort::InvalidArgument))
        } else if threshold > cap_u32(weight_total(weights)) {
            Some(Fault::Abort(Abort::InvalidArgument))
        } else if cap_u32(weight_total(weights)) == 0 {
            Some(Fault::Abort(Abort::InvalidArgument))
        } else if self.slices.len() >= u64::MAX {
            Some(Fault::Abort(Abort::ArithmeticOverflow))
        } else {
            None
        }
    }

    /// Creates a weighted slice and returns its id. The threshold is a weight:
    /// positive and at most the (saturating) total weight. The total weight
    /// is cached.
    pub fn create_slice(&mut self, creator: Address, attestors: Vec<Address>, weights: Vec<u32>, threshold: u32) -> (r: Result<u64, Fault>)
        requires
            old(self).wf(),
        ensures
            final(self).wf(),
            r is Err <==> old(self).create_slice_failure(attestors@, weights@, threshold) is Some,
            r matches Err(f) ==> old(self).create_slice_failure(attestors@, weights@, threshold) == Some(f)
                && *final(self) == *old(self),
            r matches Ok(id) ==> id == old(self).slices.len() + 1
                && final(self).slices@ == old(self).slices@.push(QuorumSlice { id, creator, attestors, weights, threshold })
                && weight_cache_set(old(self).caches, final(self).caches, id, cap_u32(weight_total(weights@)) as u32)
                && only_changed(*old(self), *final(self), set![Part::Slices, Part::Caches]),
    {
        if attestors.len() == 0 {
            return Err(Fault::Abort(Abort::InvalidArgument));
        }
        if attestors.len() > MAX_ATTESTORS_PER_SLICE as usize {
            return Err(Fault::Abort(Abort::InvalidArgument));
        }
        if weights.len() != attestors.len() {
            return Err(Fault::Abort(Abort::LengthMismatch));
        }
        if threshold == 0 {
            return Err(Fault::Abort(Abort::InvalidArgument));
        }
        let total = total_weight(&weights);
        if threshold > total {
            return Err(Fault::Abort(Abort::InvalidArgument));
        }
        if total == 0 {
            return Err(Fault::Abort(Abort::InvalidArgument));
        }
        if self.slices.len() as u64 == u64::MAX {
            return Err(Fault::Abort(Abort::ArithmeticOverflow));
        }
        let id = self.slices.len() as u64 + 1;
        self.slices.push(QuorumSlice { id, creator, attestors, weights, threshold });
        self.caches.slice_weight.insert(id, total);
        Ok(id)
    }

    /// Slice `id`.
    pub fn get_slice(&self, slice_id: u64) -> (r: Result<&QuorumSlice, Fault>)
        ensures
            self.has_slice(slice_id) ==> r == Ok::<&QuorumSlice, Fault>(&self.slice_at(slice_id)),
            !self.has_slice(slice_id) ==> r == Err::<&QuorumSlice, Fault>(Fault::Contract(ContractError::SliceNotFound)),
    {
        match self.find_slice(slice_id) {
            Some(i) => Ok(&self.slices[i]),
            None => Err(Fault::Contract(ContractError::SliceNotFound)),
        }
    }

    /// Whether slice `id` exists.
    pub fn slice_exists(&self, slice_id: u64) -> (b: bool)
        ensures
            b == self.has_slice(slice_id),
    {
        self.find_slice(slice_id).is_some()
    }

    /// The creator of slice `id`.
    pub fn get_slice_creator(&self, slice_id: u64) -> (r: Result<Address, Fault>)
        ensures
            self.has_slice(slice_id) ==> r == Ok::<Address, Fault>(self.slice_at(slice_id).creator),
            !self.has_slice(slice_id) ==> r == Err::<Address, Fault>(Fault::Contract(ContractError::SliceNotFound)),
    {
        match self.find_slice(slice_id) {
            Some(i) => Ok(self.slices[i].creator),
            None => Err(Fault::Contract(ContractError::SliceNotFound)),
        }
    }

    /// The threshold changes of slice `id`, oldest first.
    pub fn get_slice_threshold_audit(&self, slice_id: u64) -> (t: &[ThresholdAuditEntry])
        ensures
            t@ == list_at(self.slice_data.threshold_audit@, slice_id),
    {
        match self.slice_data.threshold_audit.get(&slice_id) {
            Some(v) => v.as_slice(),
            None => &[],
        }
    }

    /// The first reason to refuse `add_attestor`; `None` when it succeeds.
    pub open spec fn add_attestor_failure(&self, creator: Address, slice_id: u64, attestor: Address, weight: u32) -> Option<Fault> {
        if !self.has_slice(slice_id) {
            Some(Fault::Contract(ContractError::SliceNotFound))
        } else if self.slice_at(slice_id).creator != creator {
            Some(Fault::Abort(Abort::Unauthorized))
        } else if self.slice_at(slice_id).attestors.len() >= MAX_ATTESTORS_PER_SLICE {
            Some(Fault::Abort(Abort::InvalidArgument))
        } else if weight == 0 {
            Some(Fault::Abort(Abort::InvalidArgument))
        } else if self.slice_at(slice_id).attestors@.contains(attestor) {
            Some(Fault::Contract(ContractError::DuplicateAttestor))
        } else {
            None
        }
    }

    /// Adds an attestor with a positive weight to a slice. Creator only.
    pub fn add_attestor(&mut self, creator: Address, slice_id: u64, attestor: Address, weight: u32) -> (r: Result<(), Fault>)
        requires
            old(self).wf(),
        ensures
            final(self).wf(),
            r is Err <==> old(self).add_attestor_failure(creator, slice_id, attestor, weight) is Some,
            r matches Err(f) ==> old(self).add_attestor_failure(creator, slice_id, attestor, weight) == Some(f)
                && *final(self) == *old(self),
            r is Ok ==> {
                let s = old(self).slice_at(slice_id);
                let t = final(self).slice_at(slice_id);
                &&& final(self).slices.len() == old(self).slices.len()
                &&& forall|j: int| 0 <= j < old(self).slices.len() && j != slice_id - 1 ==> final(self).slices[j] == old(self).slices[j]
                &&& t.id == s.id && t.creator == s.creator && t.threshold == s.threshold
                &&& t.attestors@ == s.attestors@.push(attestor)
                &&& t.weights@ == s.weights@.push(weight)
                &&& slice_caches_reset(old(self).caches, final(self).caches, slice_id, cap_u32(weight_total(t.weights@)) as u32,
                    old(self).credentials.len() as int)
                &&& only_changed(*old(self), *final(self), set![Part::Slices, Part::Caches])
            },
    {
        let i = match self.find_slice(slice_id) {
            Some(i) => i,
            None => { return Err(Fault::Contract(ContractError::SliceNotFound)); },
        };
        if self.slices[i].creator != creator {
            return Err(Fault::Abort(Abort::Unauthorized));
        }
        if self.slices[i].attestors.len() >= MAX_ATTESTORS_PER_SLICE as usize {
            return Err(Fault::Abort(Abort::InvalidArgument));
        }
        if weight == 0 {
            return Err(Fault::Abort(Abort::InvalidArgument));
        }
        if contains_address(&self.slices[i].attestors, attestor) {
            return Err(Fault::Contract(ContractError::DuplicateAttestor));
        }
        assert(self.slices[i as int].weights.len() == self.slices[i as int].attestors.len());
        {
            let s = &mut self.slices[i];
            s.attestors.push(attestor);
            s.weights.push(weight);
        }
        proof {
            assert forall|j: int| 0 <= j < self.slices.len() implies #[trigger] self.slices[j].id == j + 1
                && self.slices[j].weights.len() == self.slices[j].attestors.len() by {
                if j != i as int {
                    assert(self.slices[j] == old(self).slices[j]);
                }
            }
        }
        let total = total_weight(&self.slices[i].weights);
        self.caches.slice_weight.insert(slice_id, total);
        Self::invalidate_verification_caches_for_slice(&mut self.caches, self.credentials.len() as u64, slice_id);
        Ok(())
    }

    /// The first reason to refuse `remove_attestor`; `None` when it succeeds.
    pub open spec fn remove_attestor_failure(&self, creator: Address, slice_id: u64, attestor: Address) -> Option<Fault> {
        if !self.has_slice(slice_id) {
            Some(Fault::Contract(ContractError::SliceNotFound))
        } else if self.slice_at(slice_id).creator != creator {
            Some(Fault::Abort(Abort::Unauthorized))
        } else if !self.slice_at(slice_id).attestors@.contains(attestor) {
            Some(Fault::Abort(Abort::AttestorNotInSlice))
        } else if self.slice_at(slice_id).attestors.len() == 1 {
            Some(Fault::Abort(Abort::InvalidArgument))
        } else {
            None
        }
    }

    /// Removes an attestor (its first occurrence) and its weight from a slice;
    /// the threshold drops to the remaining total weight if it exceeded it.
    /// Creator only; the last attestor cannot be removed.
    pub fn remove_attestor(&mut self, creator: Address, slice_id: u64, attestor: Address) -> (r: Result<(), Fault>)
        requires
            old(self).wf(),
        ensures
            final(self).wf(),
            r is Err <==> old(self).remove_attestor_failure(creator, slice_id, attestor) is Some,
            r matches Err(f) ==> old(self).remove_attestor_failure(creator, slice_id, attestor) == Some(f)
                && *final(self) == *old(self),
            r is Ok ==> {
                let s = old(self).slice_at(slice_id);
                let t = final(self).slice_at(slice_id);
                let pos = crate::quorum::first_index(s.attestors@, attestor);
                let total = cap_u32(weight_total(s.weights@.remove(pos)));
                &&& final(self).slices.len() == old(self).slices.len()
                &&& forall|j: int| 0 <= j < old(self).slices.len() && j != slice_id - 1 ==> final(self).slices[j] == old(self).slices[j]
                &&& t.id == s.id && t.creator == s.creator
                &&& t.attestors@ == s.attestors@.remove(pos)
                &&& t.weights@ == s.weights@.remove(pos)
                &&& t.threshold == if s.threshold > total { total as u32 } else { s.threshold }
                &&& slice_caches_reset(old(self).caches, final(self).caches, slice_id, total as u32, old(self).credentials.len() as int)
                &&& only_changed(*old(self), *final(self), set![Part::Slices, Part::Caches])
            },
    {
        let i = match self.find_slice(slice_id) {
            Some(i) => i,
            None => { return Err(Fault::Contract(ContractError::SliceNotFound)); },
        };
        if self.slices[i].creator != creator {
            return Err(Fault::Abort(Abort::Unauthorized));
        }
        let pos = match find_address(&self.slices[i].attestors, attestor) {
            Some(p) => p,
            None => { return Err(Fault::Abort(Abort::AttestorNotInSlice)); },
        };
        proof { lemma_first_index(self.slices[i as int].attestors@, attestor, pos as int); }
        if self.slices[i].attestors.len() == 1 {
            return Err(Fault::Abort(Abort::InvalidArgument));
        }
        assert(self.slices[i as int].weights.len() == self.slices[i as int].attestors.len());
        let total;
        {
            let s = &mut self.slices[i];
            s.attestors.remove(pos);
            s.weights.remove(pos);
            total = total_weight(&s.weights);
            if s.threshold > total {
                s.threshold = total;
            }
        }
        proof {
            assert forall|j: int| 0 <= j < self.slices.len() implies #[trigger] self.slices[j].id == j + 1
                && self.slices[j].weights.len() == self.slices[j].attestors.len() by {
                if j != i as int {
                    assert(self.slices[j] == old(self).slices[j]);
                }
            }
        }
        self.caches.slice_weight.insert(slice_id, total);
        Self::invalidate_verification_caches_for_slice(&mut self.caches, self.credentials.len() as u64, slice_id);
        Ok(())
    }

    /// The first reason to refuse `update_slice_threshold`; `None` when it succeeds.
    pub open spec fn update_threshold_failure(&self, creator: Address, slice_id: u64, new_threshold: u32) -> Option<Fault> {
        if !self.has_slice(slice_id) {
            Some(Fault::Contract(ContractError::SliceNotFound))
        } else if self.slice_at(slice_id).creator != creator {
            Some(Fault::Abort(Abort::Unauthorized))
        } else if new_threshold == 0 {
            Some(Fault::Abort(Abort::InvalidArgument))
        } else if new_threshold > cap_u32(weight_total(self.slice_at(slice_id).weights@)) {
            Some(Fault::Abort(Abort::InvalidArgument))
        } else {
            None
        }
    }

    /// Sets a slice's threshold (positive, at most the total weight) and logs
    /// the change. Creator only.
    pub fn update_slice_threshold(&mut self, now: u64, creator: Address, slice_id: u64, new_threshold: u32) -> (r: Result<(), Fault>)
        requires
            old(self).wf(),
        ensures
            final(self).wf(),
            r is Err <==> old(self).update_threshold_failure(creator, slice_id, new_threshold) is Some,
            r matches Err(f) ==> old(self).update_threshold_failure(creator, slice_id, new_threshold) == Some(f)
                && *final(self) == *old(self),
            r is Ok ==> {
                let s = old(self).slice_at(slice_id);
                &&& final(self).slices@ == old(self).slices@.update(slice_id - 1, QuorumSlice { threshold: new_threshold, ..s })
                &&& list_at(final(self).slice_data.threshold_audit@, slice_id) == list_at(old(self).slice_data.threshold_audit@, slice_id).push(
                    ThresholdAuditEntry { slice_id, old_threshold: s.threshold, new_threshold, changed_by: creator, timestamp: now },
                )
                &&& only_key_set(old(self).slice_data.threshold_audit@, final(self).slice_data.threshold_audit@, slice_id)
                &&& final(self).slice_data.consensus_history == old(self).slice_data.consensus_history
                &&& final(self).slice_data.messages == old(self).slice_data.messages
                &&& final(self).slice_data.suspended == old(self).slice_data.suspended
                &&& final(self).caches.verification@ == old(self).caches.verification@.remove_keys(
                    slice_cache_keys(slice_id, old(self).credentials.len() as int))
                &&& final(self).caches.revocation == old(self).caches.revocation
                &&& final(self).caches.metadata == old(self).caches.metadata
                &&& final(self).caches.slice_weight == old(self).caches.slice_weight
                &&& only_changed(*old(self), *final(self), set![Part::Slices, Part::SliceData, Part::Caches])
            },
    {
        let i = match self.find_slice(slice_id) {
            Some(i) => i,
            None => { return Err(Fault::Contract(ContractError::SliceNotFound)); },
        };
        if self.slices[i].creator != creator {
            return Err(Fault::Abort(Abort::Unauthorized));
        }
        if new_threshold == 0 {
            return Err(Fault::Abort(Abort::InvalidArgument));
        }
        let total = total_weight(&self.slices[i].weights);
        if new_threshold > total {
            return Err(Fault::Abort(Abort::InvalidArgument));
        }
        let old_threshold = self.slices[i].threshold;
        self.slices[i].threshold = new_threshold;
        assert(self.slices@ =~= old(self).slices@.update(slice_id - 1, QuorumSlice { threshold: new_threshold, ..old(self).slice_at(slice_id) }));
        push_at(
            &mut self.slice_data.threshold_audit,
            slice_id,
            ThresholdAuditEntry { slice_id, old_threshold, new_threshold, changed_by: creator, timestamp: now },
        );
        Self::invalidate_verification_caches_for_slice(&mut self.caches, self.credentials.len() as u64, slice_id);
        Ok(())
    }

    /// Whether the attestor is suspended in the slice.
    pub fn is_attestor_suspended(&self, slice_id: u64, attestor: Address) -> (b: bool)
        ensures
            b == is_suspended_in(self.slice_data.suspended@, slice_id, attestor),
    {
        suspended_in(&self.slice_data.suspended, slice_id, attestor)
    }

    /// The first reason to refuse `suspend_attestor`; `None` when it succeeds.
    pub open spec fn suspend_attestor_failure(&self, creator: Address, slice_id: u64, attestor: Address) -> Option<Fault> {
        if self.config.paused {
            Some(Fault::Contract(ContractError::ContractPaused))
        } else if !self.has_slice(slice_id) {
            Some(Fault::Contract(ContractError::SliceNotFound))
        } else if self.slice_at(slice_id).creator != creator {
            Some(Fault::Abort(Abort::Unauthorized))
        } else if !self.slice_at(slice_id).attestors@.contains(attestor) {
            Some(Fault::Abort(Abort::AttestorNotInSlice))
        } else {
            None
        }
    }

    /// Suspends a member of a slice: its attestations stop counting in that
    /// slice and it may not attest there. Creator only.
    pub fn suspend_attestor(&mut self, creator: Address, slice_id: u64, attestor: Address) -> (r: Result<(), Fault>)
        requires
            old(self).wf(),
        ensures
            final(self).wf(),
            r is Err <==> old(self).suspend_attestor_failure(creator, slice_id, attestor) is Some,
            r matches Err(f) ==> old(self).suspend_attestor_failure(creator, slice_id, attestor) == Some(f)
                && *final(self) == *old(self),
            r is Ok ==> final(self).slice_data.suspended@ == old(self).slice_data.suspended@.insert(pair_key(slice_id, attestor.0), true)
                && only_suspensions_changed(old(self).slice_data, final(self).slice_data)
                && only_changed(*old(self), *final(self), set![Part::SliceData]),
    {
        self.require_not_paused()?;
        let i = match self.find_slice(slice_id) {
            Some(i) => i,
            None => { return Err(Fault::Contract(ContractError::SliceNotFound)); },
        };
        if self.slices[i].creator != creator {
            return Err(Fault::Abort(Abort::Unauthorized));
        }
        if !contains_address(&self.slices[i].attestors, attestor) {
            return Err(Fault::Abort(Abort::AttestorNotInSlice));
        }
        self.slice_data.suspended.insert(pack_pair(slice_id, attestor.0), true);
        Ok(())
    }

    /// The first reason to refuse `resume_attestor`; `None` when it succeeds.
    pub open spec fn resume_attestor_failure(&self, creator: Address, slice_id: u64) -> Option<Fault> {
        if self.config.paused {
            Some(Fault::Contract(ContractError::ContractPaused))
        } else if !self.has_slice(slice_id) {
            Some(Fault::Contract(ContractError::SliceNotFound))
        } else if self.slice_at(slice_id).creator != creator {
            Some(Fault::Abort(Abort::Unauthorized))
        } else {
            None
        }
    }

    /// Lifts an attestor's suspension in a slice. Creator only.
    pub fn resume_attestor(&mut self, creator: Address, slice_id: u64, attestor: Address) -> (r: Result<(), Fault>)
        requires
            old(self).wf(),
        ensures
            final(self).wf(),
            r is Err <==> old(self).resume_attestor_failure(creator, slice_id) is Some,
            r matches Err(f) ==> old(self).resume_attestor_failure(creator, slice_id) == Some(f)
                && *final(self) == *old(self),
            r is Ok ==> final(self).slice_data.suspended@ == old(self).slice_data.suspended@.remove(pair_key(slice_id, attestor.0))
                && only_suspensions_changed(old(self).slice_data, final(self).slice_data)
                && only_changed(*old(self), *final(self), set![Part::SliceData]),
    {
        self.require_not_paused()?;
        let i = match self.find_slice(slice_id) {
            Some(i) => i,
            None => { return Err(Fault::Contract(ContractError::SliceNotFound)); },
        };
        if self.slices[i].creator != creator {
            return Err(Fault::Abort(Abort::Unauthorized));
        }
        self.slice_data.suspended.remove(&pack_pair(slice_id, attestor.0));
        Ok(())
    }

    /// The number of times an attestor was slashed.
    pub fn get_slash_count(&self, attestor: Address) -> (c: u64)
        ensures
            c == (if self.holders.slash_counts@.contains_key(attestor.0) { self.holders.slash_counts@[attestor.0] } else { 0 }),
    {
        match self.holders.slash_counts.get(&attestor.0) {
            Some(c) => *c,
            None => 0,
        }
    }

    /// Suspends the attestor in the slice and counts one more slash against it.
    pub(crate) fn slash(&mut self, slice_id: u64, attestor: Address, count: u64)
        requires
            count == (if old(self).holders.slash_counts@.contains_key(attestor.0) { old(self).holders.slash_counts@[attestor.0] } else { 0 }),
            count < u64::MAX,
        ensures
            final(self).slice_data.suspended@ == old(self).slice_data.suspended@.insert(pair_key(slice_id, attestor.0), true),
            only_suspensions_changed(old(self).slice_data, final(self).slice_data),
            final(self).holders.slash_counts@ == old(self).holders.slash_counts@.insert(attestor.0, (count + 1) as u64),
            holders_changed(old(self).holders, final(self).holders, set![HolderField::SlashCounts]),
            only_changed(*old(self), *final(self), set![Part::SliceData, Part::Holders]),
    {
        self.slice_data.suspended.insert(pack_pair(slice_id, attestor.0), true);
        self.holders.slash_counts.insert(attestor.0, count + 1);
    }

    /// The first reason to refuse `slash_attestor`; `None` when it succeeds.
    pub open spec fn slash_failure(&self, caller: Address, contract_address: Address, attestor: Address) -> Option<Fault> {
        if self.config.admin is None {
            Some(Fault::Abort(Abort::NotInitialized))
        } else if caller != contract_address && self.config.admin != Some(caller) {
            Some(Fault::Abort(Abort::Unauthorized))
        } else if self.holders.slash_counts@.contains_key(attestor.0) && self.holders.slash_counts@[attestor.0] == u64::MAX {
            Some(Fault::Abort(Abort::ArithmeticOverflow))
        } else {
            None
        }
    }

    /// Slashes an attestor: suspends it in the slice and counts the slash.
    /// The admin may call this, and so may the contract itself
    /// (`contract_address`), as challenge resolution does.
    pub fn slash_attestor(&mut self, caller: Address, contract_address: Address, slice_id: u64, attestor: Address) -> (r: Result<(), Fault>)
        requires
            old(self).wf(),
        ensures
            final(self).wf(),
            r is Err <==> old(self).slash_failure(caller, contract_address, attestor) is Some,
            r matches Err(f) ==> old(self).slash_failure(caller, contract_address, attestor) == Some(f)
                && *final(self) == *old(self),
            r is Ok ==> {
                let count = if old(self).holders.slash_counts@.contains_key(attestor.0) { old(self).holders.slash_counts@[attestor.0] } else { 0 };
                &&& final(self).slice_data.suspended@ == old(self).slice_data.suspended@.insert(pair_key(slice_id, attestor.0), true)
                &&& only_suspensions_changed(old(self).slice_data, final(self).slice_data)
                &&& final(self).holders.slash_counts@ == old(self).holders.slash_counts@.insert(attestor.0, (count + 1) as u64)
                &&& holders_changed(old(self).holders, final(self).holders, set![HolderField::SlashCounts])
                &&& only_changed(*old(self), *final(self), set![Part::SliceData, Part::Holders])
            },
    {
        let admin = match self.config.admin {
            Some(a) => a,
            None => { return Err(Fault::Abort(Abort::NotInitialized)); },
        };
        if caller != contract_address && caller != admin {
            return Err(Fault::Abort(Abort::Unauthorized));
        }
        let count = self.get_slash_count(attestor);
        if count == u64::MAX {
            return Err(Fault::Abort(Abort::ArithmeticOverflow));
        }
        self.slash(slice_id, attestor, count);
        Ok(())
    }

    /// The first reason to refuse `send_slice_message`; `None` when it succeeds.
    pub open spec fn send_message_failure(&self, sender: Address, slice_id: u64) -> Option<Fault> {
        if self.config.paused {
            Some(Fault::Contract(ContractError::ContractPaused))
        } else if !self.has_slice(slice_id) {
            Some(Fault::Contract(ContractError::SliceNotFound))
        } else if !self.slice_at(slice_id).attestors@.contains(sender) {
            Some(Fault::Abort(Abort::AttestorNotInSlice))
        } else {
            None
        }
    }

    /// A slice member posts a message to the slice.
    pub fn send_slice_message(&mut self, now: u64, sender: Address, slice_id: u64, content: String, expires_at: u64) -> (r: Result<(), Fault>)
        requires
            old(self).wf(),
        ensures
            final(self).wf(),
            r is Err <==> old(self).send_message_failure(sender, slice_id) is Some,
            r matches Err(f) ==> old(self).send_message_failure(sender, slice_id) == Some(f)
                && *final(self) == *old(self),
            r is Ok ==> list_at(final(self).slice_data.messages@, slice_id) == list_at(old(self).slice_data.messages@, slice_id).push(
                SliceMessage { sender, content, sent_at: now, expires_at },
            ) && only_key_set(old(self).slice_data.messages@, final(self).slice_data.messages@, slice_id)
                && final(self).slice_data.consensus_history == old(self).slice_data.consensus_history
                && final(self).slice_data.threshold_audit == old(self).slice_data.threshold_audit
                && final(self).slice_data.suspended == old(self).slice_data.suspended
                && only_changed(*old(self), *final(self), set![Part::SliceData]),
    {
        self.require_not_paused()?;
        let i = match self.find_slice(slice_id) {
            Some(i) => i,
            None => { return Err(Fault::Contract(ContractError::SliceNotFound)); },
        };
        if !contains_address(&self.slices[i].attestors, sender) {
            return Err(Fault::Abort(Abort::AttestorNotInSlice));
        }
        push_at(&mut self.slice_data.messages, slice_id, SliceMessage { sender, content, sent_at: now, expires_at });
        Ok(())
    }

    /// The messages of a slice that have not expired at `now`, oldest first.
    pub fn get_slice_messages(&self, now: u64, slice_id: u64) -> (out: Vec<SliceMessage>)
        ensures
            out.len() == live_messages(list_at(self.slice_data.messages@, slice_id), now).len(),
            forall|k: int| 0 <= k < out.len() ==> same_message(#[trigger] out@[k],
                live_messages(list_at(self.slice_data.messages@, slice_id), now)[k]),
    {
        let empty: Vec<SliceMessage> = Vec::new();
        let all = match self.slice_data.messages.get(&slice_id) {
            Some(v) => v,
            None => &empty,
        };
        assert(all@ == list_at(self.slice_data.messages@, slice_id));
        let mut out: Vec<SliceMessage> = Vec::new();
        let mut i: usize = 0;
        while i < all.len()
            invariant
                i <= all.len(),
                all@ == list_at(self.slice_data.messages@, slice_id),
                out.len() == live_messages(all@.take(i as int), now).len(),
                forall|k: int| 0 <= k < out.len() ==> same_message(#[trigger] out@[k],
                    live_messages(all@.take(i as int), now)[k]),
            decreases all.len() - i,
        {
            let ghost before = live_messages(all@.take(i as int), now);
            proof {
                assert(all@.take(i as int + 1).drop_last() =~= all@.take(i as int));
                assert(all@.take(i as int + 1).last() == all@[i as int]);
            }
            if all[i].expires_at > now {
                let m = copy_message(&all[i]);
                out.push(m);
                proof {
                    let after = live_messages(all@.take(i as int + 1), now);
                    assert(after == before.push(all@[i as int]));
                    assert forall|k: int| 0 <= k < out.len() implies same_message(#[trigger] out@[k], after[k]) by {
                        if k < out.len() - 1 {
                            assert(after[k] == before[k]);
                        }
                    }
                }
            } else {
                proof {
                    assert(live_messages(all@.take(i as int + 1), now) == before);
                }
            }
            i += 1;
        }
        proof {
            assert(all@.take(all.len() as int) =~= all@);
        }
        out
    }
}

} // verus!
