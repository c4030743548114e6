use vstd::prelude::*;
use crate::admin::admin_failure;
use crate::checks::MAX_BATCH_SIZE;
use crate::errors::{Abort, ContractError, Fault};
use crate::state::{pack_pair, pair_key, only_changed, cred_data_changed, holders_changed, CredField, HolderField, Part, QuorumProofContract};
use crate::store::{count_at, list_at, only_key_set, push_at, read_count, copy_page, page_of};
use crate::types::{
    Address, ActivityRecord, ClaimType, Credential, Delegation, DelegationAuditEntry, ProofRequest,
    ReputationRecovery, VerificationStats,
};

verus! {

broadcast use vstd::std_specs::hash::group_hash_axioms;

/// The credential passes the optional filters on subject, issuer and type.
pub open spec fn matches_filters(c: Credential, subject: Option<Address>, issuer: Option<Address>, credential_type: Option<u32>) -> bool {
    &&& subject matches Some(s) ==> c.subject == s
    &&& issuer matches Some(i) ==> c.issuer == i
    &&& credential_type matches Some(t) ==> c.credential_type == t
}

/// The ids of the credentials that pass the filters, in id order.
pub open spec fn matching_ids(creds: Seq<Credential>, subject: Option<Address>, issuer: Option<Address>, credential_type: Option<u32>) -> Seq<u64>
    decreases creds.len(),
{
    if creds.len() == 0 {
        Seq::empty()
    } else if matches_filters(creds.last(), subject, issuer, credential_type) {
        matching_ids(creds.drop_last(), subject, issuer, credential_type).push(creds.last().id)
    } else {
        matching_ids(creds.drop_last(), subject, issuer, credential_type)
    }
}

/// With credentials numbered from 1 in order, the matching ids ascend and
/// are exactly the ids of the credentials that pass the filters.
pub proof fn lemma_matching_ids_ascending(
    creds: Seq<Credential>,
    subject: Option<Address>,
    issuer: Option<Address>,
    credential_type: Option<u32>,
)
    requires
        forall|i: int| 0 <= i < creds.len() ==> #[trigger] creds[i].id == i + 1,
    ensures
        forall|i: int, j: int| 0 <= i < j < matching_ids(creds, subject, issuer, credential_type).len()
            ==> #[trigger] matching_ids(creds, subject, issuer, credential_type)[i]
                < #[trigger] matching_ids(creds, subject, issuer, credential_type)[j],
        forall|x: u64| #[trigger] matching_ids(creds, subject, issuer, credential_type).contains(x)
            <==> 1 <= x <= creds.len() && matches_filters(creds[x - 1], subject, issuer, credential_type),
    decreases creds.len(),
{
    if creds.len() > 0 {
        let init = creds.drop_last();
        lemma_matching_ids_ascending(init, subject, issuer, credential_type);
        let rest = matching_ids(init, subject, issuer, credential_type);
        let ids = matching_ids(creds, subject, issuer, credential_type);
        let n = creds.len();
        assert forall|k: int| 0 <= k < rest.len() implies rest[k] < n by {
            assert(rest.contains(rest[k]));
        }
        if matches_filters(creds.last(), subject, issuer, credential_type) {
            assert(ids == rest.push(creds.last().id));
            assert(creds.last().id == n);
            assert forall|x: u64| ids.contains(x) <==> 1 <= x <= n && matches_filters(creds[x - 1], subject, issuer, credential_type) by {
                if ids.contains(x) {
                    let k = choose|k: int| 0 <= k < ids.len() && ids[k] == x;
                    if k < rest.len() {
                        assert(rest.contains(x));
                        assert(creds[x - 1] == init[x - 1]);
                    }
                }
                if 1 <= x <= n && matches_filters(creds[x - 1], subject, issuer, credential_type) {
                    if x < n {
                        assert(init[x - 1] == creds[x - 1]);
                        assert(rest.contains(x));
                        let k = choose|k: int| 0 <= k < rest.len() && rest[k] == x;
                        assert(ids[k] == x);
                    } else {
                        assert(ids[rest.len() as int] == x);
                    }
                }
            }
        } else {
            assert(ids == rest);
            assert forall|x: u64| ids.contains(x) <==> 1 <= x <= n && matches_filters(creds[x - 1], subject, issuer, credential_type) by {
                if ids.contains(x) {
                    assert(creds[x - 1] == init[x - 1]);
                }
                if 1 <= x <= n && matches_filters(creds[x - 1], subject, issuer, credential_type) {
                    if x < n {
                        assert(init[x - 1] == creds[x - 1]);
                    } else {
                        assert(creds[x - 1] == creds.last());
                    }
                }
            }
        }
    }
}

/// Whether the credential passes the filters.
pub fn passes_filters(c: &Credential, subject: Option<Address>, issuer: Option<Address>, credential_type: Option<u32>) -> (b: bool)
    ensures
        b == matches_filters(*c, subject, issuer, credential_type),
{
    if let Some(s) = subject {
        if c.subject != s {
            return false;
        }
    }
    if let Some(i) = issuer {
        if c.issuer != i {
            return false;
        }
    }
    if let Some(t) = credential_type {
        if c.credential_type != t {
            return false;
        }
    }
    true
}

impl QuorumProofContract {
    /// The ids of the credentials passing the filters, in id order.
    pub fn filtered_ids(&self, subject: Option<Address>, issuer: Option<Address>, credential_type: Option<u32>) -> (v: Vec<u64>)
        ensures
            v@ == matching_ids(self.credentials@, subject, issuer, credential_type),
    {
        let mut out: Vec<u64> = Vec::new();
        let mut k: usize = 0;
        while k < self.credentials.len()
            invariant
                k <= self.credentials.len(),
                out@ == matching_ids(self.credentials@.take(k as int), subject, issuer, credential_type),
            decreases self.credentials.len() - k,
        {
            assert(self.credentials@.take(k as int + 1).drop_last() =~= self.credentials@.take(k as int));
            if passes_filters(&self.credentials[k], subject, issuer, credential_type) {
                out.push(self.credentials[k].id);
            }
            k += 1;
        }
        assert(self.credentials@.take(self.credentials.len() as int) =~= self.credentials@);
        out
    }

    /// Page `page` (from 1) of at most `MAX_BATCH_SIZE` ids of the
    /// credentials passing the filters. The date bounds are accepted and
    /// not applied.
    pub fn search_credentials(
        &self,
        subject: Option<Address>,
        issuer: Option<Address>,
        credential_type: Option<u32>,
        start_date: Option<u64>,
        end_date: Option<u64>,
        page: u32,
        page_size: u32,
    ) -> (r: Result<Vec<u64>, Fault>)
        ensures
            page == 0 || page_size == 0 || page_size > MAX_BATCH_SIZE ==> r == Err::<Vec<u64>, Fault>(
                Fault::Contract(ContractError::InvalidInput)),
            page > 0 && 0 < page_size <= MAX_BATCH_SIZE ==> (r matches Ok(v)
                && v@ == page_of(matching_ids(self.credentials@, subject, issuer, credential_type), page, page_size)),
    {
        Self::precondition(page > 0)?;
        Self::precondition(page_size > 0)?;
        Self::precondition(page_size <= MAX_BATCH_SIZE)?;
        let ids = self.filtered_ids(subject, issuer, credential_type);
        Ok(copy_page(&ids, page, page_size))
    }

    /// The number of credentials passing the filters; a count past
    /// `u32::MAX` is refused as an arithmetic overflow.
    pub fn count_credentials(&self, subject: Option<Address>, issuer: Option<Address>, credential_type: Option<u32>) -> (r: Result<u32, Fault>)
        ensures
            matching_ids(self.credentials@, subject, issuer, credential_type).len() <= u32::MAX ==> r == Ok::<u32, Fault>(
                matching_ids(self.credentials@, subject, issuer, credential_type).len() as u32),
            matching_ids(self.credentials@, subject, issuer, credential_type).len() > u32::MAX ==> r == Err::<u32, Fault>(
                Fault::Abort(Abort::ArithmeticOverflow)),
    {
        let ids = self.filtered_ids(subject, issuer, credential_type);
        if ids.len() > u32::MAX as usize {
            return Err(Fault::Abort(Abort::ArithmeticOverflow));
        }
        Ok(ids.len() as u32)
    }

    /// Page `page` (from 1) of `page_size` entries of the holder's activity
    /// log; page 0 is refused as an arithmetic overflow.
    pub fn get_holder_activity(&self, holder: Address, page: u32, page_size: u32) -> (r: Result<Vec<ActivityRecord>, Fault>)
        ensures
            self.config.paused ==> r == Err::<Vec<ActivityRecord>, Fault>(Fault::Contract(ContractError::ContractPaused)),
            !self.config.paused && page == 0 ==> r == Err::<Vec<ActivityRecord>, Fault>(Fault::Abort(Abort::ArithmeticOverflow)),
            !self.config.paused && page > 0 ==> (r matches Ok(v) && v@ == page_of(self.activity_of(holder), page, page_size)),
    {
        self.require_not_paused()?;
        if page == 0 {
            return Err(Fault::Abort(Abort::ArithmeticOverflow));
        }
        let empty: Vec<ActivityRecord> = Vec::new();
        let log = match self.holders.activity.get(&holder.0) {
            Some(v) => v,
            None => &empty,
        };
        assert(log@ == self.activity_of(holder));
        Ok(copy_page(log, page, page_size))
    }

    /// The number of credentials issued; refused before initialization.
    pub fn get_credential_count(&self) -> (r: Result<u64, Fault>)
        ensures
            r == (if self.config.admin is Some {
                Ok::<u64, Fault>(self.credentials.len() as u64)
            } else {
                Err(Fault::Abort(Abort::NotInitialized))
            }),
    {
        if self.config.admin.is_none() {
            return Err(Fault::Abort(Abort::NotInitialized));
        }
        Ok(self.credentials.len() as u64)
    }

    /// The number of slices created; refused before initialization.
    pub fn get_slice_count(&self) -> (r: Result<u64, Fault>)
        ensures
            r == (if self.config.admin is Some {
                Ok::<u64, Fault>(self.slices.len() as u64)
            } else {
                Err(Fault::Abort(Abort::NotInitialized))
            }),
    {
        if self.config.admin.is_none() {
            return Err(Fault::Abort(Abort::NotInitialized));
        }
        Ok(self.slices.len() as u64)
    }

    /// Verification statistics; all counts are zero.
    pub fn get_verification_stats(&self) -> (s: VerificationStats)
        ensures
            s == (VerificationStats { total_verifications: 0, successful_verifications: 0, failed_verifications: 0 }),
    {
        VerificationStats { total_verifications: 0, successful_verifications: 0, failed_verifications: 0 }
    }

    /// The reputation recovery record of an attestor, if any.
    pub fn get_reputation_recovery(&self, attestor: Address) -> (r: Option<ReputationRecovery>)
        ensures
            r == (if self.holders.reputation_recoveries@.contains_key(attestor.0) {
                Some(self.holders.reputation_recoveries@[attestor.0])
            } else {
                None
            }),
    {
        match self.holders.reputation_recoveries.get(&attestor.0) {
            Some(x) => Some(*x),
            None => None,
        }
    }

    /// The first reason to refuse `initiate_reputation_recovery`; `None` when it succeeds.
    pub open spec fn initiate_reputation_failure(&self, attestor: Address) -> Option<Fault> {
        if self.config.paused {
            Some(Fault::Contract(ContractError::ContractPaused))
        } else if count_at(self.holders.attestor_counts@, attestor.0) == 0 {
            Some(Fault::Abort(Abort::InvalidState))
        } else if self.holders.reputation_recoveries@.contains_key(attestor.0)
            && !self.holders.reputation_recoveries@[attestor.0].completed {
            Some(Fault::Abort(Abort::InvalidState))
        } else {
            None
        }
    }

    /// An attestor with attestation history opens a reputation recovery at
    /// `now`; only one may be pending at a time.
    pub fn initiate_reputation_recovery(&mut self, now: u64, attestor: Address) -> (r: Result<(), Fault>)
        ensures
            r is Err <==> old(self).initiate_reputation_failure(attestor) is Some,
            r matches Err(f) ==> old(self).initiate_reputation_failure(attestor) == Some(f) && *final(self) == *old(self),
            r is Ok ==> final(self).holders.reputation_recoveries@ == old(self).holders.reputation_recoveries@.insert(
                attestor.0, ReputationRecovery { attestor, initiated_at: now, completed: false })
                && holders_changed(old(self).holders, final(self).holders, set![HolderField::ReputationRecoveries])
                && only_changed(*old(self), *final(self), set![Part::Holders]),
    {
        self.require_not_paused()?;
        if read_count(&self.holders.attestor_counts, attestor.0) == 0 {
            return Err(Fault::Abort(Abort::InvalidState));
        }
        if let Some(existing) = self.holders.reputation_recoveries.get(&attestor.0) {
            if !existing.completed {
                return Err(Fault::Abort(Abort::InvalidState));
            }
        }
        self.holders.reputation_recoveries.insert(attestor.0, ReputationRecovery { attestor, initiated_at: now, completed: false });
        Ok(())
    }

    /// The first reason to refuse `complete_reputation_recovery`; `None` when it succeeds.
    pub open spec fn complete_reputation_failure(&self, admin: Address, attestor: Address) -> Option<Fault> {
        if admin_failure(self.config, admin) is Some {
            admin_failure(self.config, admin)
        } else if !self.holders.reputation_recoveries@.contains_key(attestor.0) {
            Some(Fault::Abort(Abort::NotFound))
        } else if self.holders.reputation_recoveries@[attestor.0].completed {
            Some(Fault::Abort(Abort::InvalidState))
        } else {
            None
        }
    }

    /// The admin completes an attestor's pending reputation recovery.
    pub fn complete_reputation_recovery(&mut self, admin: Address, attestor: Address) -> (r: Result<(), Fault>)
        ensures
            r is Err <==> old(self).complete_reputation_failure(admin, attestor) is Some,
            r matches Err(f) ==> old(self).complete_reputation_failure(admin, attestor) == Some(f) && *final(self) == *old(self),
            r is Ok ==> final(self).holders.reputation_recoveries@ == old(self).holders.reputation_recoveries@.insert(
                attestor.0, ReputationRecovery { completed: true, ..old(self).holders.reputation_recoveries@[attestor.0] })
                && holders_changed(old(self).holders, final(self).holders, set![HolderField::ReputationRecoveries])
                && only_changed(*old(self), *final(self), set![Part::Holders]),
    {
        self.check_admin(admin)?;
        let current = match self.holders.reputation_recoveries.get(&attestor.0) {
            Some(x) => *x,
            None => { return Err(Fault::Abort(Abort::NotFound)); },
        };
        if current.completed {
            return Err(Fault::Abort(Abort::InvalidState));
        }
        self.holders.reputation_recoveries.insert(attestor.0, ReputationRecovery { completed: true, ..current });
        Ok(())
    }

    /// The first reason to refuse `delegate_verification`; `None` when it succeeds.
    pub open spec fn delegate_failure(&self, holder: Address, id: u64) -> Option<Fault> {
        if self.config.paused {
            Some(Fault::Contract(ContractError::ContractPaused))
        } else if !self.has_credential(id) {
            Some(Fault::Contract(ContractError::CredentialNotFound))
        } else if self.credential_at(id).subject != holder {
            Some(Fault::Abort(Abort::Unauthorized))
        } else {
            None
        }
    }

    /// The credential's holder lets `delegate` verify it until `expiry`;
    /// the grant is dated with the ledger sequence number and logged.
    pub fn delegate_verification(
        &mut self,
        ledger_sequence: u32,
        holder: Address,
        credential_id: u64,
        delegate: Address,
        expiry: u64,
    ) -> (r: Result<(), Fault>)
        ensures
            r is Err <==> old(self).delegate_failure(holder, credential_id) is Some,
            r matches Err(f) ==> old(self).delegate_failure(holder, credential_id) == Some(f) && *final(self) == *old(self),
            r is Ok ==> {
                let granted_at = ledger_sequence as u64;
                &&& final(self).cred_data.delegations@ == old(self).cred_data.delegations@.insert(
                    pair_key(credential_id, delegate.0), Delegation { delegate, credential_id, expiry, granted_at })
                &&& list_at(final(self).cred_data.delegation_audits@, credential_id) == list_at(
                    old(self).cred_data.delegation_audits@, credential_id).push(
                    DelegationAuditEntry { delegate, credential_id, expiry, granted_at })
                &&& only_key_set(old(self).cred_data.delegation_audits@, final(self).cred_data.delegation_audits@, credential_id)
                &&& cred_data_changed(old(self).cred_data, final(self).cred_data, set![CredField::Delegations])
                &&& final(self).cred_data.proof_requests == old(self).cred_data.proof_requests
                &&& final(self).cred_data.proof_request_count == old(self).cred_data.proof_request_count
                &&& only_changed(*old(self), *final(self), set![Part::CredData])
            },
    {
        self.require_not_paused()?;
        let i = match self.find_credential(credential_id) {
            Some(i) => i,
            None => { return Err(Fault::Contract(ContractError::CredentialNotFound)); },
        };
        if self.credentials[i].subject != holder {
            return Err(Fault::Abort(Abort::Unauthorized));
        }
        let granted_at = ledger_sequence as u64;
        self.cred_data.delegations.insert(pack_pair(credential_id, delegate.0), Delegation { delegate, credential_id, expiry, granted_at });
        push_at(&mut self.cred_data.delegation_audits, credential_id, DelegationAuditEntry { delegate, credential_id, expiry, granted_at });
        Ok(())
    }

    /// The delegation of a credential to `delegate`, if any.
    pub fn get_delegation(&self, credential_id: u64, delegate: Address) -> (d: Option<Delegation>)
        ensures
            d == (if self.cred_data.delegations@.contains_key(pair_key(credential_id, delegate.0)) {
                Some(self.cred_data.delegations@[pair_key(credential_id, delegate.0)])
            } else {
                None
            }),
    {
        match self.cred_data.delegations.get(&pack_pair(credential_id, delegate.0)) {
            Some(d) => Some(*d),
            None => None,
        }
    }

    /// The delegation log of a credential, oldest first.
    pub fn get_delegation_audit(&self, credential_id: u64) -> (t: &[DelegationAuditEntry])
        ensures
            t@ == list_at(self.cred_data.delegation_audits@, credential_id),
    {
        match self.cred_data.delegation_audits.get(&credential_id) {
            Some(v) => v.as_slice(),
            None => &[],
        }
    }

    /// The first reason to refuse `generate_proof_request`; `None` when it succeeds.
    pub open spec fn proof_request_failure(&self, id: u64) -> Option<Fault> {
        if self.config.paused {
            Some(Fault::Contract(ContractError::ContractPaused))
        } else if !self.has_credential(id) {
            Some(Fault::Contract(ContractError::CredentialNotFound))
        } else if self.cred_data.proof_request_count == u64::MAX {
            Some(Fault::Abort(Abort::ArithmeticOverflow))
        } else {
            None
        }
    }

    /// A verifier records at `now` that it asks for proof of the claims on
    /// a credential. Returns the request id, one more than the number of
    /// requests so far over all credentials.
    pub fn generate_proof_request(&mut self, now: u64, verifier: Address, credential_id: u64, claim_types: Vec<ClaimType>) -> (r: Result<u64, Fault>)
        ensures
            r is Err <==> old(self).proof_request_failure(credential_id) is Some,
            r matches Err(f) ==> old(self).proof_request_failure(credential_id) == Some(f) && *final(self) == *old(self),
            r matches Ok(id) ==> {
                let h = list_at(final(self).cred_data.proof_requests@, credential_id);
                &&& id == old(self).cred_data.proof_request_count + 1
                &&& final(self).cred_data.proof_request_count == id
                &&& h.drop_last() == list_at(old(self).cred_data.proof_requests@, credential_id)
                &&& h.len() == list_at(old(self).cred_data.proof_requests@, credential_id).len() + 1
                &&& h.last().id == id && h.last().credential_id == credential_id && h.last().verifier == verifier
                &&& h.last().requested_at == now && h.last().claim_types@ == claim_types@
                &&& only_key_set(old(self).cred_data.proof_requests@, final(self).cred_data.proof_requests@, credential_id)
                &&& cred_data_changed(old(self).cred_data, final(self).cred_data, set![CredField::ProofRequests])
                &&& only_changed(*old(self), *final(self), set![Part::CredData])
            },
    {
        self.require_not_paused()?;
        if self.find_credential(credential_id).is_none() {
            return Err(Fault::Contract(ContractError::CredentialNotFound));
        }
        if self.cred_data.proof_request_count == u64::MAX {
            return Err(Fault::Abort(Abort::ArithmeticOverflow));
        }
        let id = self.cred_data.proof_request_count + 1;
        push_at(&mut self.cred_data.proof_requests, credential_id,
            ProofRequest { id, credential_id, verifier, requested_at: now, claim_types });
        self.cred_data.proof_request_count = id;
        proof {
            assert(list_at(self.cred_data.proof_requests@, credential_id).drop_last()
                =~= list_at(old(self).cred_data.proof_requests@, credential_id));
        }
        Ok(id)
    }

    /// The proof requests recorded for a credential, oldest first.
    pub fn get_proof_requests(&self, credential_id: u64) -> (t: &[ProofRequest])
        ensures
            t@ == list_at(self.cred_data.proof_requests@, credential_id),
    {
        match self.cred_data.proof_requests.get(&credential_id) {
            Some(v) => v.as_slice(),
            None => &[],
        }
    }
}

} // verus!
