use vstd::prelude::*;
use soroban_sdk::Env;
use crate::checks::{optional_timestamp_in_range, MAX_METADATA_SIZE};
use crate::errors::{Abort, ContractError, Fault};
use crate::lists::{none_after, retained_activity, retain_recent};
use crate::pow::pow_outcome;
use crate::rate_limit::{effective_rate_config, rate_limit_step};
use crate::state::{pack_pair, pair_key, only_changed, cred_data_changed, CredField, DuplicateKey, Indexes, Part, QuorumProofContract};
use crate::store::{list_at, list_at32, only_key_set, push_at, push_at32, copy_bytes};
use crate::types::{Address, ActivityRecord, ActivityType, Credential, CredentialVersion};

use crate::indexing::lemma_indexes_after_issue;

verus! {

broadcast use vstd::std_specs::hash::group_hash_axioms;

/// The activity record of one event.
pub open spec fn activity_record(
    activity_type: ActivityType,
    credential_id: u64,
    now: u64,
    actor: Address,
    slice_id: Option<u64>,
) -> ActivityRecord {
    ActivityRecord { activity_type, credential_id, timestamp: now, actor, slice_id }
}

/// What `issue_credential` changes: the issuer's call is counted against
/// its rate limit; credential number `credentials.len() + 1` is stored; it
/// joins its subject's lists and its type's index; the (subject, issuer,
/// type) triple enters the duplicate guard; and its first version is recorded.
pub open spec fn credential_issued(
    old_: QuorumProofContract,
    new_: QuorumProofContract,
    now: u64,
    issuer: Address,
    subject: Address,
    credential_type: u32,
    metadata: Seq<u8>,
    expires_at: Option<u64>,
) -> bool {
    let id = (old_.credentials.len() + 1) as u64;
    let c = new_.credentials@.last();
    &&& new_.credentials.len() == old_.credentials.len() + 1
    &&& new_.credentials@.drop_last() == old_.credentials@
    &&& c.id == id && c.subject == subject && c.issuer == issuer && c.credential_type == credential_type
    &&& c.metadata_hash@ == metadata && !c.revoked && !c.suspended && c.expires_at == expires_at && c.version == 1
    &&& new_.rate_limits@ == old_.rate_limits@.insert(
        issuer.0,
        rate_limit_step(
            effective_rate_config(old_.config.rate_limit_config),
            if old_.rate_limits@.contains_key(issuer.0) { Some(old_.rate_limits@[issuer.0]) } else { None },
            now,
        )->Some_0,
    )
    &&& list_at(new_.indexes.subject_credentials@, subject.0)
        == list_at(old_.indexes.subject_credentials@, subject.0).push(id)
    &&& only_key_set(old_.indexes.subject_credentials@, new_.indexes.subject_credentials@, subject.0)
    &&& list_at(new_.indexes.subject_index@, subject.0) == list_at(old_.indexes.subject_index@, subject.0).push(id)
    &&& only_key_set(old_.indexes.subject_index@, new_.indexes.subject_index@, subject.0)
    &&& list_at32(new_.indexes.type_index@, credential_type)
        == list_at32(old_.indexes.type_index@, credential_type).push(id)
    &&& only_key_set(old_.indexes.type_index@, new_.indexes.type_index@, credential_type)
    &&& new_.indexes.duplicate_keys@ == old_.indexes.duplicate_keys@.push(
        DuplicateKey { subject, issuer, credential_type },
    )
    &&& list_at(new_.cred_data.versions@, id).len() == list_at(old_.cred_data.versions@, id).len() + 1
    &&& list_at(new_.cred_data.versions@, id).drop_last() == list_at(old_.cred_data.versions@, id)
    &&& list_at(new_.cred_data.versions@, id).last().version == 1
    &&& list_at(new_.cred_data.versions@, id).last().metadata@ == metadata
    &&& list_at(new_.cred_data.versions@, id).last().updated_at == now
    &&& list_at(new_.cred_data.versions@, id).last().updated_by == issuer
    &&& only_key_set(old_.cred_data.versions@, new_.cred_data.versions@, id)
    &&& cred_data_changed(old_.cred_data, new_.cred_data, set![CredField::Versions])
    &&& only_changed(old_, new_, set![Part::RateLimits, Part::Credentials, Part::Indexes, Part::CredData])
}

impl QuorumProofContract {
    /// Credential `id` is stored.
    pub open spec fn has_credential(&self, id: u64) -> bool {
        1 <= id <= self.credentials.len()
    }

    /// Credential `id` (meaningful when it is stored).
    pub open spec fn credential_at(&self, id: u64) -> Credential {
        self.credentials[id - 1]
    }

    /// The issuer has already issued a credential of this type to the subject.
    pub open spec fn is_duplicate(&self, subject: Address, issuer: Address, credential_type: u32) -> bool {
        exists|i: int| 0 <= i < self.indexes.duplicate_keys.len()
            && #[trigger] self.indexes.duplicate_keys@[i].subject == subject
            && self.indexes.duplicate_keys@[i].issuer == issuer
            && self.indexes.duplicate_keys@[i].credential_type == credential_type
    }

    /// The issuer has blacklisted the holder.
    pub open spec fn is_blacklisted(&self, issuer: Address, holder: Address) -> bool {
        self.lists.blacklist@.contains_key(pair_key(issuer.0, holder.0))
    }

    /// The holder's activity log.
    pub open spec fn activity_of(&self, holder: Address) -> Seq<ActivityRecord> {
        list_at(self.holders.activity@, holder.0)
    }

    /// The position of credential `id`, if it is stored.
    pub fn find_credential(&self, id: u64) -> (r: Option<usize>)
        ensures
            match r {
                Some(i) => self.has_credential(id) && i == id - 1,
                None => !self.has_credential(id),
            },
    {
        if id >= 1 && id - 1 < self.credentials.len() as u64 {
            Some((id - 1) as usize)
        } else {
            None
        }
    }

    /// Whether credential `id` exists.
    pub fn credential_exists(&self, credential_id: u64) -> (b: bool)
        ensures
            b == self.has_credential(credential_id),
    {
        self.find_credential(credential_id).is_some()
    }

    /// Whether the holder is blacklisted by the issuer.
    pub fn is_holder_blacklisted(&self, issuer: Address, holder: Address) -> (b: bool)
        ensures
            b == self.is_blacklisted(issuer, holder),
    {
        self.lists.blacklist.contains_key(&pack_pair(issuer.0, holder.0))
    }

    /// Whether the duplicate guard holds this triple.
    pub fn has_duplicate(&self, subject: Address, issuer: Address, credential_type: u32) -> (b: bool)
        ensures
            b == self.is_duplicate(subject, issuer, credential_type),
    {
        let mut i: usize = 0;
        while i < self.indexes.duplicate_keys.len()
            invariant
                i <= self.indexes.duplicate_keys.len(),
                forall|k: int| 0 <= k < i ==> !(#[trigger] self.indexes.duplicate_keys@[k].subject == subject
                    && self.indexes.duplicate_keys@[k].issuer == issuer
                    && self.indexes.duplicate_keys@[k].credential_type == credential_type),
            decreases self.indexes.duplicate_keys.len() - i,
        {
            let k = self.indexes.duplicate_keys[i];
            if k.subject == subject && k.issuer == issuer && k.credential_type == credential_type {
                return true;
            }
            i += 1;
        }
        false
    }

    /// The holder's activity log with one more record appended, after the
    /// records older than a year are dropped; nothing is stored. A record
    /// dated after `now` in the log stops the computation.
    pub fn prepare_activity(
        &self,
        now: u64,
        holder: Address,
        activity_type: ActivityType,
        credential_id: u64,
        actor: Address,
        slice_id: Option<u64>,
    ) -> (r: Result<Vec<ActivityRecord>, Fault>)
        ensures
            none_after(self.activity_of(holder), now) ==> (r matches Ok(v) && v@ == retained_activity(self.activity_of(holder), now).push(
                activity_record(activity_type, credential_id, now, actor, slice_id),
            )),
            !none_after(self.activity_of(holder), now) ==> r == Err::<Vec<ActivityRecord>, Fault>(Fault::Abort(Abort::ArithmeticOverflow)),
    {
        let empty: Vec<ActivityRecord> = Vec::new();
        let current = match self.holders.activity.get(&holder.0) {
            Some(v) => v,
            None => &empty,
        };
        assert(current@ == self.activity_of(holder));
        let mut retained = retain_recent(current, now)?;
        retained.push(ActivityRecord { activity_type, credential_id, timestamp: now, actor, slice_id });
        Ok(retained)
    }

    /// Appends an activity record to the holder's log, first dropping records
    /// older than a year. A record dated after `now` in the log stops the call.
    pub fn record_holder_activity(
        &mut self,
        now: u64,
        holder: Address,
        activity_type: ActivityType,
        credential_id: u64,
        actor: Address,
        slice_id: Option<u64>,
    ) -> (r: Result<(), Fault>)
        ensures
            none_after(old(self).activity_of(holder), now) ==> r is Ok,
            !none_after(old(self).activity_of(holder), now) ==> r == Err::<(), Fault>(Fault::Abort(Abort::ArithmeticOverflow))
                && *final(self) == *old(self),
            r is Ok ==> final(self).activity_of(holder) == retained_activity(old(self).activity_of(holder), now).push(
                activity_record(activity_type, credential_id, now, actor, slice_id),
            ) && only_key_set(old(self).holders.activity@, final(self).holders.activity@, holder.0)
                && final(self).holders.attestor_counts == old(self).holders.attestor_counts
                && final(self).holders.holder_attestation_counts == old(self).holders.holder_attestation_counts
                && final(self).holders.slash_counts == old(self).holders.slash_counts
                && final(self).holders.notifications == old(self).holders.notifications
                && final(self).holders.reputation_recoveries == old(self).holders.reputation_recoveries
                && final(self).holders.successful_verifications == old(self).holders.successful_verifications
                && final(self).holders.failed_verifications == old(self).holders.failed_verifications
                && only_changed(*old(self), *final(self), set![Part::Holders]),
    {
        let empty: Vec<ActivityRecord> = Vec::new();
        let current = match self.holders.activity.get(&holder.0) {
            Some(v) => v,
            None => &empty,
        };
        assert(current@ == old(self).activity_of(holder));
        let mut retained = retain_recent(current, now)?;
        retained.push(ActivityRecord { activity_type, credential_id, timestamp: now, actor, slice_id });
        self.holders.activity.insert(holder.0, retained);
        assert(final(self).holders.activity@.remove(holder.0) =~= old(self).holders.activity@.remove(holder.0));
        Ok(())
    }

    /// The first reason, in the contract's order of checks, to refuse
    /// `issue_credential`; `None` when it succeeds.
    pub open spec fn issue_credential_failure(
        &self,
        now: u64,
        issuer: Address,
        subject: Address,
        credential_type: u32,
        metadata_hash: Seq<u8>,
        expires_at: Option<u64>,
        pow: Result<(), Fault>,
    ) -> Option<Fault> {
        if self.config.paused {
            Some(Fault::Contract(ContractError::ContractPaused))
        } else if rate_limit_step(
            effective_rate_config(self.config.rate_limit_config),
            if self.rate_limits@.contains_key(issuer.0) { Some(self.rate_limits@[issuer.0]) } else { None },
            now,
        ) is None {
            Some(Fault::Contract(ContractError::RateLimitExceeded))
        } else if pow is Err {
            Some(pow->Err_0)
        } else if credential_type == 0 {
            Some(Fault::Abort(Abort::ZeroCredentialType))
        } else if metadata_hash.len() == 0 {
            Some(Fault::Abort(Abort::EmptyMetadataHash))
        } else if metadata_hash.len() > MAX_METADATA_SIZE {
            Some(Fault::Contract(ContractError::InvalidInput))
        } else if !optional_timestamp_in_range(now, expires_at) {
            Some(Fault::Contract(ContractError::InvalidTimestamp))
        } else if self.is_duplicate(subject, issuer, credential_type) {
            Some(Fault::Contract(ContractError::DuplicateCredential))
        } else if self.is_blacklisted(issuer, subject) {
            Some(Fault::Contract(ContractError::HolderBlacklisted))
        } else if self.credentials.len() >= u64::MAX {
            Some(Fault::Abort(Abort::ArithmeticOverflow))
        } else {
            None
        }
    }

    /// Issues a credential to `subject` and returns its id, one more than the
    /// number of credentials issued before. The issuer is rate limited, must
    /// pass the proof of work over the two addresses' XDR encodings, must not
    /// have issued this type to the subject before, and must not have
    /// blacklisted the subject.
    pub fn issue_credential(
        &mut self,
        env: &Env,
        now: u64,
        issuer: Address,
        subject: Address,
        credential_type: u32,
        metadata_hash: Vec<u8>,
        expires_at: Option<u64>,
        nonce: u64,
    ) -> (r: Result<u64, Fault>)
        requires
            old(self).wf(),
        ensures
            final(self).wf(),
            ({
                let failure = old(self).issue_credential_failure(
                    now,
                    issuer,
                    subject,
                    credential_type,
                    metadata_hash@,
                    expires_at,
                    pow_outcome(old(self).config.pow_difficulty, old(self).encoding_of(issuer), old(self).encoding_of(subject), credential_type, nonce),
                );
                &&& r is Err <==> failure is Some
                &&& r matches Err(f) ==> failure == Some(f) && *final(self) == *old(self)
            }),
            r matches Ok(id) ==> id == old(self).credentials.len() + 1 && credential_issued(*old(self), *final(self), now, issuer,
                subject, credential_type, metadata_hash@, expires_at),
            r matches Ok(id) ==> list_at(final(self).cred_data.versions@, id).len() == 1,
    {
        self.require_not_paused()?;
        let rate = self.next_rate_limit_state(issuer, now)?;
        let empty: Vec<u8> = Vec::new();
        let issuer_xdr = match self.holders.encodings.get(&issuer.0) {
            Some(e) => e,
            None => &empty,
        };
        let subject_xdr = match self.holders.encodings.get(&subject.0) {
            Some(e) => e,
            None => &empty,
        };
        assert(issuer_xdr@ == self.encoding_of(issuer) && subject_xdr@ == self.encoding_of(subject));
        self.verify_pow(env, issuer_xdr, subject_xdr, credential_type, nonce)?;
        if credential_type == 0 {
            return Err(Fault::Abort(Abort::ZeroCredentialType));
        }
        if metadata_hash.len() == 0 {
            return Err(Fault::Abort(Abort::EmptyMetadataHash));
        }
        Self::precondition(metadata_hash.len() <= 256)?;
        Self::validate_transaction_size(&metadata_hash)?;
        Self::validate_optional_timestamp(now, expires_at)?;
        if self.has_duplicate(subject, issuer, credential_type) {
            return Err(Fault::Contract(ContractError::DuplicateCredential));
        }
        if self.is_holder_blacklisted(issuer, subject) {
            return Err(Fault::Contract(ContractError::HolderBlacklisted));
        }
        if self.credentials.len() as u64 == u64::MAX {
            return Err(Fault::Abort(Abort::ArithmeticOverflow));
        }
        let id: u64 = self.credentials.len() as u64 + 1;
        let version_metadata = copy_bytes(&metadata_hash);
        self.rate_limits.insert(issuer.0, rate);
        self.credentials.push(Credential {
            id,
            subject,
            issuer,
            credential_type,
            metadata_hash,
            revoked: false,
            suspended: false,
            expires_at,
            version: 1,
        });
        push_at(&mut self.indexes.subject_credentials, subject.0, id);
        push_at(&mut self.indexes.subject_index, subject.0, id);
        self.indexes.duplicate_keys.push(DuplicateKey { subject, issuer, credential_type });
        push_at32(&mut self.indexes.type_index, credential_type, id);
        proof {
            assert(self.credentials@ =~= old(self).credentials@.push(self.credentials@.last()));
            lemma_indexes_after_issue(old(self).credentials@, old(self).indexes, self.credentials@, self.indexes,
                self.credentials@.last());
        }
        push_at(
            &mut self.cred_data.versions,
            id,
            CredentialVersion { version: 1, metadata: version_metadata, updated_at: now, updated_by: issuer },
        );
        proof {
            assert(self.credentials@.drop_last() =~= old(self).credentials@);
            assert(list_at(self.cred_data.versions@, id).drop_last() =~= list_at(old(self).cred_data.versions@, id));
            assert forall|k: u64| #[trigger] self.cred_data.versions@.contains_key(k) implies 1 <= k <= self.credentials.len() by {
                if k != id {
                    assert(old(self).cred_data.versions@.remove(id).contains_key(k));
                }
            }
        }
        Ok(id)
    }

    /// Issues a credential with the metadata `default` and proof-of-work
    /// nonce 0, as `issue_credential` does; this succeeds only while the
    /// proof-of-work difficulty is 0.
    pub fn issue(
        &mut self,
        env: &Env,
        now: u64,
        issuer: Address,
        subject: Address,
        credential_type: u32,
        expires_at: Option<u64>,
    ) -> (r: Result<u64, Fault>)
        requires
            old(self).wf(),
        ensures
            final(self).wf(),
            ({
                let failure = old(self).issue_credential_failure(
                    now,
                    issuer,
                    subject,
                    credential_type,
                    default_metadata_spec(),
                    expires_at,
                    pow_outcome(old(self).config.pow_difficulty, old(self).encoding_of(issuer), old(self).encoding_of(subject), credential_type, 0),
                );
                &&& r is Err <==> failure is Some
                &&& r matches Err(f) ==> failure == Some(f) && *final(self) == *old(self)
            }),
            r matches Ok(id) ==> id == old(self).credentials.len() + 1 && credential_issued(*old(self), *final(self), now, issuer,
                subject, credential_type, default_metadata_spec(), expires_at),
    {
        let metadata = default_metadata();
        self.issue_credential(env, now, issuer, subject, credential_type, metadata, expires_at, 0)
    }
}

/// The bytes of the word `default`.
pub open spec fn default_metadata_spec() -> Seq<u8> {
    seq![100u8, 101u8, 102u8, 97u8, 117u8, 108u8, 116u8]
}

/// The bytes of the word `default`, the metadata `issue` stores.
pub fn default_metadata() -> (v: Vec<u8>)
    ensures
        v@ == default_metadata_spec(),
{
    let v: Vec<u8> = vec![100u8, 101u8, 102u8, 97u8, 117u8, 108u8, 116u8];
    assert(v@ =~= default_metadata_spec());
    v
}

} // verus!
