use vstd::prelude::*;
use crate::checks::MAX_MULTISIG_SIGNERS;
use crate::credentials::activity_record;
use crate::errors::{Abort, ContractError, Fault};
use crate::cred_ops::{move_subject, subject_moved};
use crate::lists::{none_after, retained_activity, retain_recent};
use crate::quorum::{cap_u32, contains_address, total_weight, weight_total};
use crate::state::{only_changed, DuplicateKey, Governance, Part, QuorumProofContract};
use crate::store::{list_at, only_key_set, push_at, set_at};
use crate::types::{
    Address, ActivityRecord, ActivityType, Credential, Dispute, DisputeStatus, RecoveryApproval,
    RecoveryRequest, RecoveryStatus,
};

use crate::indexing::lemma_indexes_after_move;

verus! {

broadcast use vstd::std_specs::hash::group_hash_axioms;

/// The ids of the tokens, in order, that are linked to credential `id`;
/// each token comes as (token id, linked credential id).
pub open spec fn tokens_linked_to(tokens: Seq<(u64, u64)>, id: u64) -> Seq<u64>
    decreases tokens.len(),
{
    if tokens.len() == 0 {
        Seq::empty()
    } else if tokens.last().1 == id {
        tokens_linked_to(tokens.drop_last(), id).push(tokens.last().0)
    } else {
        tokens_linked_to(tokens.drop_last(), id)
    }
}

/// The tokens a recovery of credential `credential_id` moves to the new
/// subject: those of the previous subject linked to that credential.
pub fn recovery_tokens(tokens: &Vec<(u64, u64)>, credential_id: u64) -> (v: Vec<u64>)
    ensures
        v@ == tokens_linked_to(tokens@, credential_id),
{
    let mut v: Vec<u64> = Vec::new();
    let mut i: usize = 0;
    while i < tokens.len()
        invariant
            i <= tokens.len(),
            v@ == tokens_linked_to(tokens@.take(i as int), credential_id),
        decreases tokens.len() - i,
    {
        assert(tokens@.take(i as int + 1).drop_last() =~= tokens@.take(i as int));
        let (token_id, linked) = tokens[i];
        if linked == credential_id {
            v.push(token_id);
        }
        i += 1;
    }
    assert(tokens@.take(tokens.len() as int) =~= tokens@);
    v
}

/// Whether any of the tokens, each given as (token id, linked credential
/// id), is linked to credential `credential_id`.
pub fn holds_linked_token(tokens: &Vec<(u64, u64)>, credential_id: u64) -> (b: bool)
    ensures
        b == (exists|i: int| 0 <= i < tokens.len() && (#[trigger] tokens@[i]).1 == credential_id),
{
    let mut i: usize = 0;
    while i < tokens.len()
        invariant
            i <= tokens.len(),
            forall|j: int| 0 <= j < i ==> (#[trigger] tokens@[j]).1 != credential_id,
        decreases tokens.len() - i,
    {
        if tokens[i].1 == credential_id {
            return true;
        }
        i += 1;
    }
    false
}

/// The duplicate guard without any entry equal to `k`, order kept.
pub open spec fn keys_without(s: Seq<DuplicateKey>, k: DuplicateKey) -> Seq<DuplicateKey>
    decreases s.len(),
{
    if s.len() == 0 {
        s
    } else if s.last() == k {
        keys_without(s.drop_last(), k)
    } else {
        keys_without(s.drop_last(), k).push(s.last())
    }
}

/// No entry of `keys_without(s, k)` equals `k`, and every other entry of
/// `s` stays.
pub proof fn lemma_keys_without(s: Seq<DuplicateKey>, k: DuplicateKey)
    ensures
        !keys_without(s, k).contains(k),
        forall|x: DuplicateKey| x != k && s.contains(x) ==> keys_without(s, k).contains(x),
    decreases s.len(),
{
    if s.len() > 0 {
        lemma_keys_without(s.drop_last(), k);
        let rest = keys_without(s.drop_last(), k);
        assert forall|x: DuplicateKey| x != k && s.contains(x) implies keys_without(s, k).contains(x) by {
            let i = choose|i: int| 0 <= i < s.len() && s[i] == x;
            if i < s.len() - 1 {
                assert(s.drop_last()[i] == x);
                assert(s.drop_last().contains(x));
            }
            if s.last() != k {
                assert(keys_without(s, k) == rest.push(s.last()));
                if rest.contains(x) {
                    let j = choose|j: int| 0 <= j < rest.len() && rest[j] == x;
                    assert(rest.push(s.last())[j] == x);
                } else {
                    assert(rest.push(s.last())[rest.len() as int] == x);
                }
            }
        }
        if s.last() != k {
            assert(keys_without(s, k) == rest.push(s.last()));
            assert forall|j: int| 0 <= j < rest.push(s.last()).len() implies rest.push(s.last())[j] != k by {
                if j < rest.len() {
                    assert(rest[j] != k);
                }
            }
        }
    }
}

/// Keeps the entries other than `k`.
pub fn remove_key(s: &Vec<DuplicateKey>, k: DuplicateKey) -> (r: Vec<DuplicateKey>)
    ensures
        r@ == keys_without(s@, k),
{
    let mut r: Vec<DuplicateKey> = Vec::new();
    let mut i: usize = 0;
    while i < s.len()
        invariant
            i <= s.len(),
            r@ == keys_without(s@.take(i as int), k),
        decreases s.len() - i,
    {
        assert(s@.take(i as int + 1).drop_last() =~= s@.take(i as int));
        if s[i] != k {
            r.push(s[i]);
        }
        i += 1;
    }
    assert(s@.take(s.len() as int) =~= s@);
    r
}

/// Whether `a` made one of the approvals.
pub fn approved_by(approvals: &Vec<RecoveryApproval>, a: Address) -> (b: bool)
    ensures
        b == exists|k: int| 0 <= k < approvals@.len() && #[trigger] approvals@[k].approver == a,
{
    let mut k: usize = 0;
    while k < approvals.len()
        invariant
            k <= approvals.len(),
            forall|j: int| 0 <= j < k ==> #[trigger] approvals@[j].approver != a,
        decreases approvals.len() - k,
    {
        if approvals[k].approver == a {
            return true;
        }
        k += 1;
    }
    false
}

/// Only the dispute records of the governance data changed.
pub open spec fn only_disputes_changed(a: Governance, b: Governance) -> bool {
    &&& b.challenges == a.challenges
    &&& b.active_challenges == a.active_challenges
    &&& b.onboarding_ids == a.onboarding_ids
    &&& b.onboarding_count == a.onboarding_count
    &&& b.recoveries == a.recoveries
    &&& b.recovery_approvals == a.recovery_approvals
    &&& b.credential_recovery == a.credential_recovery
}

/// Only the recovery records of the governance data changed.
pub open spec fn only_recoveries_changed(a: Governance, b: Governance) -> bool {
    &&& b.challenges == a.challenges
    &&& b.active_challenges == a.active_challenges
    &&& b.disputes == a.disputes
    &&& b.dispute_ids == a.dispute_ids
    &&& b.onboarding_ids == a.onboarding_ids
    &&& b.onboarding_count == a.onboarding_count
}

impl QuorumProofContract {
    /// The first reason to refuse `initiate_dispute`; `None` when it succeeds.
    pub open spec fn dispute_failure(&self, initiator: Address, slice_id: u64, accused: Address) -> Option<Fault> {
        if self.config.paused {
            Some(Fault::Contract(ContractError::ContractPaused))
        } else if !self.has_slice(slice_id) {
            Some(Fault::Contract(ContractError::SliceNotFound))
        } else if !self.slice_at(slice_id).attestors@.contains(initiator) {
            Some(Fault::Abort(Abort::AttestorNotInSlice))
        } else if !self.slice_at(slice_id).attestors@.contains(accused) {
            Some(Fault::Abort(Abort::AttestorNotInSlice))
        } else if initiator == accused {
            Some(Fault::Abort(Abort::InvalidArgument))
        } else if self.governance.disputes.len() >= u64::MAX {
            Some(Fault::Abort(Abort::ArithmeticOverflow))
        } else {
            None
        }
    }

    /// A member of slice `slice_id` opens a dispute against another member,
    /// dated `now`. Returns the new dispute's id, one more than the number of
    /// disputes so far, which also joins the list of active disputes.
    pub fn initiate_dispute(&mut self, now: u64, initiator: Address, slice_id: u64, accused: Address, reason: String) -> (r: Result<u64, Fault>)
        requires
            old(self).wf(),
        ensures
            final(self).wf(),
            r is Err <==> old(self).dispute_failure(initiator, slice_id, accused) is Some,
            r matches Err(f) ==> old(self).dispute_failure(initiator, slice_id, accused) == Some(f) && *final(self) == *old(self),
            r matches Ok(id) ==> {
                let d = final(self).governance.disputes@.last();
                &&& id == old(self).governance.disputes.len() + 1
                &&& final(self).governance.disputes.len() == id
                &&& final(self).governance.disputes@.drop_last() == old(self).governance.disputes@
                &&& d.id == id && d.slice_id == slice_id && d.initiator == initiator && d.accused == accused
                &&& d.reason@ == reason@ && d.status == DisputeStatus::Active && d.created_at == now && d.votes@.len() == 0
                &&& final(self).governance.dispute_ids@ == old(self).governance.dispute_ids@.push(id)
                &&& only_disputes_changed(old(self).governance, final(self).governance)
                &&& only_changed(*old(self), *final(self), set![Part::Governance])
            },
    {
        self.require_not_paused()?;
        let si = match self.find_slice(slice_id) {
            Some(si) => si,
            None => { return Err(Fault::Contract(ContractError::SliceNotFound)); },
        };
        if !contains_address(&self.slices[si].attestors, initiator) {
            return Err(Fault::Abort(Abort::AttestorNotInSlice));
        }
        if !contains_address(&self.slices[si].attestors, accused) {
            return Err(Fault::Abort(Abort::AttestorNotInSlice));
        }
        if initiator == accused {
            return Err(Fault::Abort(Abort::InvalidArgument));
        }
        if self.governance.disputes.len() as u64 >= u64::MAX {
            return Err(Fault::Abort(Abort::ArithmeticOverflow));
        }
        let id = self.governance.disputes.len() as u64 + 1;
        self.governance.disputes.push(Dispute {
            id,
            slice_id,
            initiator,
            accused,
            reason,
            status: DisputeStatus::Active,
            created_at: now,
            votes: Vec::new(),
        });
        self.governance.dispute_ids.push(id);
        proof {
            assert(self.governance.disputes@.drop_last() =~= old(self).governance.disputes@);
        }
        Ok(id)
    }

    /// The first reason to refuse `initiate_member_onboarding`; `None` when it succeeds.
    pub open spec fn onboarding_failure(&self, requester: Address, slice_id: u64, proposed_member: Address, proposed_weight: u32) -> Option<Fault> {
        if self.config.paused {
            Some(Fault::Contract(ContractError::ContractPaused))
        } else if !self.has_slice(slice_id) {
            Some(Fault::Contract(ContractError::SliceNotFound))
        } else if !self.slice_at(slice_id).attestors@.contains(requester) {
            Some(Fault::Abort(Abort::AttestorNotInSlice))
        } else if self.slice_at(slice_id).attestors@.contains(proposed_member) {
            Some(Fault::Contract(ContractError::DuplicateAttestor))
        } else if proposed_weight == 0 {
            Some(Fault::Abort(Abort::InvalidArgument))
        } else if proposed_weight > cap_u32(weight_total(self.slice_at(slice_id).weights@)) {
            Some(Fault::Abort(Abort::InvalidArgument))
        } else if self.governance.onboarding_count >= u64::MAX {
            Some(Fault::Abort(Abort::ArithmeticOverflow))
        } else {
            None
        }
    }

    /// A member of slice `slice_id` proposes a new member with a weight
    /// between 1 and the slice's current total weight. Returns the request
    /// id, one more than the number of requests so far, which joins the list
    /// of active onboarding requests.
    pub fn initiate_member_onboarding(&mut self, requester: Address, slice_id: u64, proposed_member: Address, proposed_weight: u32) -> (r: Result<u64, Fault>)
        requires
            old(self).wf(),
        ensures
            final(self).wf(),
            r is Err <==> old(self).onboarding_failure(requester, slice_id, proposed_member, proposed_weight) is Some,
            r matches Err(f) ==> old(self).onboarding_failure(requester, slice_id, proposed_member, proposed_weight) == Some(f)
                && *final(self) == *old(self),
            r matches Ok(id) ==> {
                &&& id == old(self).governance.onboarding_count + 1
                &&& final(self).governance.onboarding_count == id
                &&& final(self).governance.onboarding_ids@ == old(self).governance.onboarding_ids@.push(id)
                &&& final(self).governance.challenges == old(self).governance.challenges
                &&& final(self).governance.active_challenges == old(self).governance.active_challenges
                &&& final(self).governance.disputes == old(self).governance.disputes
                &&& final(self).governance.dispute_ids == old(self).governance.dispute_ids
                &&& final(self).governance.recoveries == old(self).governance.recoveries
                &&& final(self).governance.recovery_approvals == old(self).governance.recovery_approvals
                &&& final(self).governance.credential_recovery == old(self).governance.credential_recovery
                &&& only_changed(*old(self), *final(self), set![Part::Governance])
            },
    {
        self.require_not_paused()?;
        let si = match self.find_slice(slice_id) {
            Some(si) => si,
            None => { return Err(Fault::Contract(ContractError::SliceNotFound)); },
        };
        if !contains_address(&self.slices[si].attestors, requester) {
            return Err(Fault::Abort(Abort::AttestorNotInSlice));
        }
        if contains_address(&self.slices[si].attestors, proposed_member) {
            return Err(Fault::Contract(ContractError::DuplicateAttestor));
        }
        if proposed_weight == 0 {
            return Err(Fault::Abort(Abort::InvalidArgument));
        }
        if proposed_weight > total_weight(&self.slices[si].weights) {
            return Err(Fault::Abort(Abort::InvalidArgument));
        }
        if self.governance.onboarding_count == u64::MAX {
            return Err(Fault::Abort(Abort::ArithmeticOverflow));
        }
        let id = self.governance.onboarding_count + 1;
        self.governance.onboarding_ids.push(id);
        self.governance.onboarding_count = id;
        Ok(id)
    }

    /// Recovery request `id` is stored.
    pub open spec fn has_recovery(&self, id: u64) -> bool {
        1 <= id <= self.governance.recoveries.len()
    }

    /// Recovery request `id` (meaningful when it is stored).
    pub open spec fn recovery_at(&self, id: u64) -> RecoveryRequest {
        self.governance.recoveries[id - 1]
    }

    /// The first reason to refuse `initiate_recovery`; `None` when it succeeds.
    pub open spec fn initiate_recovery_failure(&self, issuer: Address, cred: u64, n_approvers: int, threshold: u32) -> Option<Fault> {
        if self.config.paused {
            Some(Fault::Contract(ContractError::ContractPaused))
        } else if cred == 0 || threshold == 0 {
            Some(Fault::Contract(ContractError::InvalidInput))
        } else if n_approvers < 1 {
            Some(Fault::Abort(Abort::TooFewElements))
        } else if n_approvers > MAX_MULTISIG_SIGNERS {
            Some(Fault::Abort(Abort::TooManyElements))
        } else if !self.has_credential(cred) {
            Some(Fault::Contract(ContractError::CredentialNotFound))
        } else if self.credential_at(cred).issuer != issuer {
            Some(Fault::Abort(Abort::Unauthorized))
        } else if self.credential_at(cred).revoked {
            Some(Fault::Abort(Abort::CredentialRevoked))
        } else if self.credential_at(cred).suspended {
            Some(Fault::Abort(Abort::CredentialSuspended))
        } else if self.governance.credential_recovery@.contains_key(cred) {
            Some(Fault::Contract(ContractError::RecoveryAlreadyExists))
        } else if self.governance.recoveries.len() >= u64::MAX {
            Some(Fault::Abort(Abort::ArithmeticOverflow))
        } else {
            None
        }
    }

    /// The issuer of a live credential asks for it to move to `new_subject`
    /// once `threshold` of the named approvers (1 to `MAX_MULTISIG_SIGNERS`
    /// of them) approve. Returns the request id, one more than the number of
    /// requests so far; one request at a time may be open per credential.
    pub fn initiate_recovery(
        &mut self,
        now: u64,
        issuer: Address,
        credential_id: u64,
        new_subject: Address,
        approvers: Vec<Address>,
        threshold: u32,
    ) -> (r: Result<u64, Fault>)
        requires
            old(self).wf(),
        ensures
            final(self).wf(),
            r is Err <==> old(self).initiate_recovery_failure(issuer, credential_id, approvers.len() as int, threshold) is Some,
            r matches Err(f) ==> old(self).initiate_recovery_failure(issuer, credential_id, approvers.len() as int, threshold) == Some(f)
                && *final(self) == *old(self),
            r matches Ok(id) ==> {
                let q = final(self).governance.recoveries@.last();
                &&& id == old(self).governance.recoveries.len() + 1
                &&& final(self).governance.recoveries.len() == id
                &&& final(self).governance.recoveries@.drop_last() == old(self).governance.recoveries@
                &&& q.id == id && q.credential_id == credential_id && q.issuer == issuer && q.new_subject == new_subject
                &&& q.status == RecoveryStatus::Pending && q.created_at == now && q.executed_at is None
                &&& q.approvers@ == approvers@ && q.threshold == threshold
                &&& final(self).governance.credential_recovery@ == old(self).governance.credential_recovery@.insert(credential_id, id)
                &&& final(self).governance.recovery_approvals == old(self).governance.recovery_approvals
                &&& only_recoveries_changed(old(self).governance, final(self).governance)
                &&& only_changed(*old(self), *final(self), set![Part::Governance])
            },
    {
        self.require_not_paused()?;
        Self::precondition(credential_id > 0)?;
        Self::precondition(threshold > 0)?;
        if approvers.len() < 1 {
            return Err(Fault::Abort(Abort::TooFewElements));
        }
        if approvers.len() > MAX_MULTISIG_SIGNERS as usize {
            return Err(Fault::Abort(Abort::TooManyElements));
        }
        let i = match self.find_credential(credential_id) {
            Some(i) => i,
            None => { return Err(Fault::Contract(ContractError::CredentialNotFound)); },
        };
        if self.credentials[i].issuer != issuer {
            return Err(Fault::Abort(Abort::Unauthorized));
        }
        if self.credentials[i].revoked {
            return Err(Fault::Abort(Abort::CredentialRevoked));
        }
        if self.credentials[i].suspended {
            return Err(Fault::Abort(Abort::CredentialSuspended));
        }
        if self.governance.credential_recovery.contains_key(&credential_id) {
            return Err(Fault::Contract(ContractError::RecoveryAlreadyExists));
        }
        if self.governance.recoveries.len() as u64 >= u64::MAX {
            return Err(Fault::Abort(Abort::ArithmeticOverflow));
        }
        let id = self.governance.recoveries.len() as u64 + 1;
        self.governance.recoveries.push(RecoveryRequest {
            id,
            credential_id,
            issuer,
            new_subject,
            status: RecoveryStatus::Pending,
            created_at: now,
            executed_at: None,
            approvers,
            threshold,
        });
        self.governance.credential_recovery.insert(credential_id, id);
        proof {
            assert(self.governance.recoveries@.drop_last() =~= old(self).governance.recoveries@);
        }
        Ok(id)
    }

    /// The approvals recorded for recovery request `id`.
    pub open spec fn approvals_of(&self, id: u64) -> Seq<RecoveryApproval> {
        list_at(self.governance.recovery_approvals@, id)
    }

    /// The first reason to refuse `approve_recovery`; `None` when it succeeds.
    pub open spec fn approve_recovery_failure(&self, approver: Address, id: u64) -> Option<Fault> {
        if self.config.paused {
            Some(Fault::Contract(ContractError::ContractPaused))
        } else if !self.has_recovery(id) {
            Some(Fault::Contract(ContractError::RecoveryNotFound))
        } else if self.recovery_at(id).status != RecoveryStatus::Pending {
            Some(Fault::Contract(ContractError::RecoveryNotPending))
        } else if !self.recovery_at(id).approvers@.contains(approver) {
            Some(Fault::Contract(ContractError::NotRecoveryApprover))
        } else if exists|k: int| 0 <= k < self.approvals_of(id).len() && #[trigger] self.approvals_of(id)[k].approver == approver {
            Some(Fault::Contract(ContractError::DuplicateRecoveryApproval))
        } else {
            None
        }
    }

    /// A named approver approves a pending recovery request at `now`. When
    /// the approvals reach the request's threshold it becomes approved.
    pub fn approve_recovery(&mut self, now: u64, approver: Address, recovery_request_id: u64) -> (r: Result<(), Fault>)
        requires
            old(self).wf(),
        ensures
            final(self).wf(),
            r is Err <==> old(self).approve_recovery_failure(approver, recovery_request_id) is Some,
            r matches Err(f) ==> old(self).approve_recovery_failure(approver, recovery_request_id) == Some(f)
                && *final(self) == *old(self),
            r is Ok ==> {
                let q = old(self).recovery_at(recovery_request_id);
                let approvals = old(self).approvals_of(recovery_request_id).push(RecoveryApproval { approver, approved_at: now });
                &&& final(self).approvals_of(recovery_request_id) == approvals
                &&& only_key_set(old(self).governance.recovery_approvals@, final(self).governance.recovery_approvals@, recovery_request_id)
                &&& approvals.len() >= q.threshold ==> final(self).governance.recoveries@ == old(self).governance.recoveries@.update(
                    recovery_request_id - 1, RecoveryRequest { status: RecoveryStatus::Approved, ..q })
                &&& approvals.len() < q.threshold ==> final(self).governance.recoveries == old(self).governance.recoveries
                &&& final(self).governance.credential_recovery == old(self).governance.credential_recovery
                &&& only_recoveries_changed(old(self).governance, final(self).governance)
                &&& only_changed(*old(self), *final(self), set![Part::Governance])
            },
    {
        self.require_not_paused()?;
        if recovery_request_id < 1 || recovery_request_id - 1 >= self.governance.recoveries.len() as u64 {
            return Err(Fault::Contract(ContractError::RecoveryNotFound));
        }
        let qi = (recovery_request_id - 1) as usize;
        if self.governance.recoveries[qi].status != RecoveryStatus::Pending {
            return Err(Fault::Contract(ContractError::RecoveryNotPending));
        }
        if !contains_address(&self.governance.recoveries[qi].approvers, approver) {
            return Err(Fault::Contract(ContractError::NotRecoveryApprover));
        }
        let empty: Vec<RecoveryApproval> = Vec::new();
        let approvals = match self.governance.recovery_approvals.get(&recovery_request_id) {
            Some(v) => v,
            None => &empty,
        };
        assert(approvals@ == old(self).approvals_of(recovery_request_id));
        if approved_by(approvals, approver) {
            proof {
                let k = choose|k: int| 0 <= k < approvals@.len() && #[trigger] approvals@[k].approver == approver;
                assert(old(self).approvals_of(recovery_request_id)[k].approver == approver);
            }
            return Err(Fault::Contract(ContractError::DuplicateRecoveryApproval));
        }
        let count: usize = approvals.len();
        let reached = count as u128 + 1 >= self.governance.recoveries[qi].threshold as u128;
        push_at(&mut self.governance.recovery_approvals, recovery_request_id, RecoveryApproval { approver, approved_at: now });
        if reached {
            self.governance.recoveries[qi].status = RecoveryStatus::Approved;
            proof {
                let q = old(self).recovery_at(recovery_request_id);
                assert(self.governance.recoveries@ =~= old(self).governance.recoveries@.update(
                    recovery_request_id - 1, RecoveryRequest { status: RecoveryStatus::Approved, ..q }));
            }
        }
        Ok(())
    }

    /// The first reason to refuse `execute_recovery`; `None` when it succeeds.
    pub open spec fn execute_recovery_failure(&self, now: u64, issuer: Address, id: u64) -> Option<Fault> {
        let q = self.recovery_at(id);
        if self.config.paused {
            Some(Fault::Contract(ContractError::ContractPaused))
        } else if !self.has_recovery(id) {
            Some(Fault::Contract(ContractError::RecoveryNotFound))
        } else if q.issuer != issuer {
            Some(Fault::Abort(Abort::Unauthorized))
        } else if q.status != RecoveryStatus::Approved {
            Some(Fault::Contract(ContractError::RecoveryThresholdNotMet))
        } else if !self.has_credential(q.credential_id) {
            Some(Fault::Contract(ContractError::CredentialNotFound))
        } else if !none_after(self.activity_of(q.new_subject), now) {
            Some(Fault::Abort(Abort::ArithmeticOverflow))
        } else {
            None
        }
    }

    /// The issuer carries out an approved recovery at `now`: the credential
    /// passes to the request's new subject, moving between the subjects'
    /// credential lists (unless it was revoked meanwhile: it is then in none
    /// and joins none) and in the duplicate guard, the request is marked
    /// executed, and the new subject's activity log records the recovery.
    /// Returns the previous subject, whose soulbound token the caller may
    /// then move.
    pub fn execute_recovery(&mut self, now: u64, issuer: Address, recovery_request_id: u64) -> (r: Result<Address, Fault>)
        requires
            old(self).wf(),
        ensures
            final(self).wf(),
            r is Err <==> old(self).execute_recovery_failure(now, issuer, recovery_request_id) is Some,
            r matches Err(f) ==> old(self).execute_recovery_failure(now, issuer, recovery_request_id) == Some(f)
                && *final(self) == *old(self),
            r matches Ok(prev) ==> {
                let q = old(self).recovery_at(recovery_request_id);
                let id = q.credential_id;
                let c = old(self).credential_at(id);
                let new_subject = q.new_subject;
                &&& prev == c.subject
                &&& final(self).credentials@ == old(self).credentials@.update(id - 1, Credential { subject: new_subject, ..c })
                &&& !c.revoked ==> subject_moved(old(self).indexes.subject_credentials@, final(self).indexes.subject_credentials@, prev, new_subject, id)
                &&& !c.revoked ==> subject_moved(old(self).indexes.subject_index@, final(self).indexes.subject_index@, prev, new_subject, id)
                &&& c.revoked ==> final(self).indexes.subject_credentials == old(self).indexes.subject_credentials
                    && final(self).indexes.subject_index == old(self).indexes.subject_index
                &&& final(self).indexes.duplicate_keys@ == keys_without(old(self).indexes.duplicate_keys@,
                    DuplicateKey { subject: prev, issuer: c.issuer, credential_type: c.credential_type }).push(
                    DuplicateKey { subject: new_subject, issuer: c.issuer, credential_type: c.credential_type })
                &&& final(self).indexes.type_index == old(self).indexes.type_index
                &&& final(self).governance.recoveries@ == old(self).governance.recoveries@.update(recovery_request_id - 1,
                    RecoveryRequest { status: RecoveryStatus::Executed, executed_at: Some(now), ..q })
                &&& final(self).governance.credential_recovery@ == old(self).governance.credential_recovery@.remove(id)
                &&& final(self).governance.recovery_approvals == old(self).governance.recovery_approvals
                &&& only_recoveries_changed(old(self).governance, final(self).governance)
                &&& final(self).activity_of(new_subject) == retained_activity(old(self).activity_of(new_subject), now).push(
                    activity_record(ActivityType::CredentialRecovered, id, now, issuer, None))
                &&& only_key_set(old(self).holders.activity@, final(self).holders.activity@, new_subject.0)
                &&& final(self).holders.attestor_counts == old(self).holders.attestor_counts
                &&& final(self).holders.holder_attestation_counts == old(self).holders.holder_attestation_counts
                &&& final(self).holders.slash_counts == old(self).holders.slash_counts
                &&& final(self).holders.notifications == old(self).holders.notifications
                &&& final(self).holders.reputation_recoveries == old(self).holders.reputation_recoveries
                &&& final(self).holders.successful_verifications == old(self).holders.successful_verifications
                &&& final(self).holders.failed_verifications == old(self).holders.failed_verifications
                &&& final(self).holders.encodings == old(self).holders.encodings
                &&& only_changed(*old(self), *final(self), set![Part::Credentials, Part::Indexes, Part::Governance, Part::Holders])
            },
    {
        self.require_not_paused()?;
        if recovery_request_id < 1 || recovery_request_id - 1 >= self.governance.recoveries.len() as u64 {
            return Err(Fault::Contract(ContractError::RecoveryNotFound));
        }
        let qi = (recovery_request_id - 1) as usize;
        if self.governance.recoveries[qi].issuer != issuer {
            return Err(Fault::Abort(Abort::Unauthorized));
        }
        if self.governance.recoveries[qi].status != RecoveryStatus::Approved {
            return Err(Fault::Contract(ContractError::RecoveryThresholdNotMet));
        }
        let id = self.governance.recoveries[qi].credential_id;
        let new_subject = self.governance.recoveries[qi].new_subject;
        let ci = match self.find_credential(id) {
            Some(ci) => ci,
            None => { return Err(Fault::Contract(ContractError::CredentialNotFound)); },
        };
        let empty_log: Vec<ActivityRecord> = Vec::new();
        let log = match self.holders.activity.get(&new_subject.0) {
            Some(v) => v,
            None => &empty_log,
        };
        assert(log@ == old(self).activity_of(new_subject));
        let mut retained = retain_recent(log, now)?;
        let prev = self.credentials[ci].subject;
        let cred_issuer = self.credentials[ci].issuer;
        let cred_type = self.credentials[ci].credential_type;
        if !self.credentials[ci].revoked {
            move_subject(&mut self.indexes.subject_credentials, prev, new_subject, id);
            move_subject(&mut self.indexes.subject_index, prev, new_subject, id);
        }
        let keys = remove_key(&self.indexes.duplicate_keys, DuplicateKey { subject: prev, issuer: cred_issuer, credential_type: cred_type });
        self.indexes.duplicate_keys = keys;
        self.indexes.duplicate_keys.push(DuplicateKey { subject: new_subject, issuer: cred_issuer, credential_type: cred_type });
        self.credentials[ci].subject = new_subject;
        proof {
            let c = old(self).credential_at(id);
            assert(self.credentials@ =~= old(self).credentials@.update(id - 1, Credential { subject: new_subject, ..c }));
            lemma_indexes_after_move(old(self).credentials@, old(self).indexes, self.credentials@, self.indexes, ci as int, new_subject);
        }
        self.governance.recoveries[qi].status = RecoveryStatus::Executed;
        self.governance.recoveries[qi].executed_at = Some(now);
        proof {
            let q = old(self).recovery_at(recovery_request_id);
            assert(self.governance.recoveries@ =~= old(self).governance.recoveries@.update(recovery_request_id - 1,
                RecoveryRequest { status: RecoveryStatus::Executed, executed_at: Some(now), ..q }));
        }
        self.governance.credential_recovery.remove(&id);
        retained.push(ActivityRecord {
            activity_type: ActivityType::CredentialRecovered,
            credential_id: id,
            timestamp: now,
            actor: issuer,
            slice_id: None,
        });
        set_at(&mut self.holders.activity, new_subject.0, retained);
        Ok(prev)
    }

    /// Recovery request `recovery_request_id`, or `RecoveryNotFound`.
    pub fn get_recovery_request(&self, recovery_request_id: u64) -> (r: Result<&RecoveryRequest, Fault>)
        ensures
            self.has_recovery(recovery_request_id) ==> (r matches Ok(q) && *q == self.recovery_at(recovery_request_id)),
            !self.has_recovery(recovery_request_id) ==> r == Err::<&RecoveryRequest, Fault>(Fault::Contract(ContractError::RecoveryNotFound)),
    {
        if recovery_request_id >= 1 && recovery_request_id - 1 < self.governance.recoveries.len() as u64 {
            Ok(&self.governance.recoveries[(recovery_request_id - 1) as usize])
        } else {
            Err(Fault::Contract(ContractError::RecoveryNotFound))
        }
    }

    /// The approvals recorded for a recovery request, oldest first.
    pub fn get_recovery_approvals(&self, recovery_request_id: u64) -> (t: &[RecoveryApproval])
        ensures
            t@ == self.approvals_of(recovery_request_id),
    {
        match self.governance.recovery_approvals.get(&recovery_request_id) {
            Some(v) => v.as_slice(),
            None => &[],
        }
    }

    /// The first reason to refuse `cancel_recovery`; `None` when it succeeds.
    pub open spec fn cancel_recovery_failure(&self, issuer: Address, id: u64) -> Option<Fault> {
        let q = self.recovery_at(id);
        if self.config.paused {
            Some(Fault::Contract(ContractError::ContractPaused))
        } else if !self.has_recovery(id) {
            Some(Fault::Contract(ContractError::RecoveryNotFound))
        } else if q.issuer != issuer {
            Some(Fault::Abort(Abort::Unauthorized))
        } else if q.status != RecoveryStatus::Pending && q.status != RecoveryStatus::Approved {
            Some(Fault::Contract(ContractError::RecoveryNotPending))
        } else {
            None
        }
    }

    /// The issuer rejects a pending or approved recovery request, which
    /// frees the credential for a new request.
    pub fn cancel_recovery(&mut self, issuer: Address, recovery_request_id: u64) -> (r: Result<(), Fault>)
        requires
            old(self).wf(),
        ensures
            final(self).wf(),
            r is Err <==> old(self).cancel_recovery_failure(issuer, recovery_request_id) is Some,
            r matches Err(f) ==> old(self).cancel_recovery_failure(issuer, recovery_request_id) == Some(f)
                && *final(self) == *old(self),
            r is Ok ==> {
                let q = old(self).recovery_at(recovery_request_id);
                &&& final(self).governance.recoveries@ == old(self).governance.recoveries@.update(recovery_request_id - 1,
                    RecoveryRequest { status: RecoveryStatus::Rejected, ..q })
                &&& final(self).governance.credential_recovery@ == old(self).governance.credential_recovery@.remove(q.credential_id)
                &&& final(self).governance.recovery_approvals == old(self).governance.recovery_approvals
                &&& only_recoveries_changed(old(self).governance, final(self).governance)
                &&& only_changed(*old(self), *final(self), set![Part::Governance])
            },
    {
        self.require_not_paused()?;
        if recovery_request_id < 1 || recovery_request_id - 1 >= self.governance.recoveries.len() as u64 {
            return Err(Fault::Contract(ContractError::RecoveryNotFound));
        }
        let qi = (recovery_request_id - 1) as usize;
        if self.governance.recoveries[qi].issuer != issuer {
            return Err(Fault::Abort(Abort::Unauthorized));
        }
        let status = self.governance.recoveries[qi].status;
        if status != RecoveryStatus::Pending && status != RecoveryStatus::Approved {
            return Err(Fault::Contract(ContractError::RecoveryNotPending));
        }
        let cred = self.governance.recoveries[qi].credential_id;
        self.governance.recoveries[qi].status = RecoveryStatus::Rejected;
        proof {
            let q = old(self).recovery_at(recovery_request_id);
            assert(self.governance.recoveries@ =~= old(self).governance.recoveries@.update(recovery_request_id - 1,
                RecoveryRequest { status: RecoveryStatus::Rejected, ..q }));
        }
        self.governance.credential_recovery.remove(&cred);
        Ok(())
    }
}

} // verus!
