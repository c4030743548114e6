use vstd::prelude::*;
use soroban_sdk::Env;
use crate::checks::{timestamp_in_range, MAX_BATCH_SIZE, MAX_METADATA_SIZE};
use crate::credentials::activity_record;
use crate::errors::{Abort, ContractError, Fault};
use crate::lists::{none_after, retained_activity, retain_recent, ONE_YEAR_SECONDS};
use crate::state::{only_changed, cred_data_changed, holders_changed, CredField, DuplicateKey, HolderField, Part, QuorumProofContract};
use crate::indexing::lemma_indexes_after_issue;
use crate::store::{list_at, list_at32, only_key_set, push_at, set_at, copy_bytes};
use crate::types::{
    Address, ActivityRecord, ActivityType, BatchError, BatchFailure, BatchResult, Credential,
    CredentialInput, CredentialVersion,
};

verus! {

broadcast use vstd::std_specs::hash::group_hash_axioms;

/// What issuing one credential of a batch changes: the credential, one more
/// than those before, is stored; it joins its subject's credential lists
/// and its type's index;
/// its first version is recorded; the subject's activity log records the
/// issue; and the (subject, issuer, type) triple enters the duplicate guard.
pub open spec fn issue_effect(
    a: QuorumProofContract,
    b: QuorumProofContract,
    now: u64,
    issuer: Address,
    subject: Address,
    credential_type: u32,
    metadata: Seq<u8>,
    expires_at: Option<u64>,
) -> bool {
    let id = (a.credentials.len() + 1) as u64;
    let c = b.credentials@.last();
    let versions = list_at(b.cred_data.versions@, id);
    &&& b.credentials.len() == a.credentials.len() + 1
    &&& b.credentials@.drop_last() == a.credentials@
    &&& c.id == id && c.subject == subject && c.issuer == issuer && c.credential_type == credential_type
    &&& c.metadata_hash@ == metadata && !c.revoked && !c.suspended && c.expires_at == expires_at && c.version == 1
    &&& list_at(b.indexes.subject_credentials@, subject.0) == list_at(a.indexes.subject_credentials@, subject.0).push(id)
    &&& only_key_set(a.indexes.subject_credentials@, b.indexes.subject_credentials@, subject.0)
    &&& b.indexes.duplicate_keys@ == a.indexes.duplicate_keys@.push(DuplicateKey { subject, issuer, credential_type })
    &&& list_at(b.indexes.subject_index@, subject.0) == list_at(a.indexes.subject_index@, subject.0).push(id)
    &&& only_key_set(a.indexes.subject_index@, b.indexes.subject_index@, subject.0)
    &&& list_at32(b.indexes.type_index@, credential_type) == list_at32(a.indexes.type_index@, credential_type).push(id)
    &&& only_key_set(a.indexes.type_index@, b.indexes.type_index@, credential_type)
    &&& b.activity_of(subject) == retained_activity(a.activity_of(subject), now).push(
        activity_record(ActivityType::CredentialIssued, id, now, issuer, None))
    &&& only_key_set(a.holders.activity@, b.holders.activity@, subject.0)
    &&& holders_changed(a.holders, b.holders, set![HolderField::Activity])
    &&& versions.len() == list_at(a.cred_data.versions@, id).len() + 1
    &&& versions.drop_last() == list_at(a.cred_data.versions@, id)
    &&& versions.last().version == 1 && versions.last().metadata@ == metadata
    &&& versions.last().updated_at == now && versions.last().updated_by == issuer
    &&& only_key_set(a.cred_data.versions@, b.cred_data.versions@, id)
    &&& cred_data_changed(a.cred_data, b.cred_data, set![CredField::Versions])
    &&& only_changed(a, b, set![Part::Credentials, Part::Indexes, Part::CredData, Part::Holders])
}

/// `states` are the states that issuing the first `n` entries passes through.
pub open spec fn issue_chain(
    states: Seq<QuorumProofContract>,
    now: u64,
    issuer: Address,
    subjects: Seq<Address>,
    types: Seq<u32>,
    hashes: Seq<Seq<u8>>,
    expiries: Seq<Option<u64>>,
    n: int,
) -> bool {
    &&& states.len() == n + 1
    &&& forall|j: int| 0 <= j < n ==> #[trigger] issue_effect(states[j], states[j + 1], now, issuer,
        subjects[j], types[j], hashes[j], expiries[j])
}

/// Some earlier entry has the same subject and credential type as entry `j`.
pub open spec fn repeats_earlier(subjects: Seq<Address>, types: Seq<u32>, j: int) -> bool {
    exists|i: int| 0 <= i < j && #[trigger] subjects[i] == subjects[j] && types[i] == types[j]
}

/// The ids `first`, `first + 1`, ... of `n` credentials.
pub open spec fn consecutive_ids(first: int, n: int) -> Seq<u64> {
    Seq::new(n as nat, |j: int| (first + j) as u64)
}

/// No activity log entry lies after `now` once old records are dropped.
proof fn lemma_retained_none_after(s: Seq<ActivityRecord>, now: u64)
    requires
        none_after(s, now),
    ensures
        none_after(retained_activity(s, now), now),
    decreases s.len(),
{
    if s.len() > 0 {
        assert forall|i: int| 0 <= i < s.drop_last().len() implies #[trigger] s.drop_last()[i].timestamp <= now by {
            assert(s.drop_last()[i] == s[i]);
        }
        lemma_retained_none_after(s.drop_last(), now);
        let r = retained_activity(s.drop_last(), now);
        if now - s.last().timestamp < ONE_YEAR_SECONDS {
            assert forall|i: int| 0 <= i < r.push(s.last()).len() implies #[trigger] r.push(s.last())[i].timestamp <= now by {
                if i < r.len() {
                    assert(r.push(s.last())[i] == r[i]);
                }
            }
        }
    }
}

impl QuorumProofContract {
    /// Stores credential number `credentials.len() + 1` with its first
    /// version, lists it under its subject, records the issue in the
    /// subject's activity log and enters the triple in the duplicate guard.
    fn issue_inner(
        &mut self,
        now: u64,
        issuer: Address,
        subject: Address,
        credential_type: u32,
        metadata_hash: Vec<u8>,
        expires_at: Option<u64>,
    ) -> (id: u64)
        requires
            old(self).wf(),
            old(self).credentials.len() < u64::MAX,
            none_after(old(self).activity_of(subject), now),
        ensures
            final(self).wf(),
            id == old(self).credentials.len() + 1,
            issue_effect(*old(self), *final(self), now, issuer, subject, credential_type, metadata_hash@, expires_at),
            none_after(final(self).activity_of(subject), now),
    {
        let id: u64 = self.credentials.len() as u64 + 1;
        let empty: Vec<ActivityRecord> = Vec::new();
        let log = match self.holders.activity.get(&subject.0) {
            Some(v) => v,
            None => &empty,
        };
        assert(log@ == old(self).activity_of(subject));
        let mut retained = match retain_recent(log, now) {
            Ok(v) => v,
            Err(_) => Vec::new(),
        };
        proof {
            lemma_retained_none_after(log@, now);
        }
        retained.push(ActivityRecord {
            activity_type: ActivityType::CredentialIssued,
            credential_id: id,
            timestamp: now,
            actor: issuer,
            slice_id: None,
        });
        let version_metadata = copy_bytes(&metadata_hash);
        self.credentials.push(Credential {
            id,
            subject,
            issuer,
            credential_type,
            metadata_hash,
            revoked: false,
            suspended: false,
            expires_at,
            version: 1,
        });
        proof {
            assert(self.credentials@.drop_last() =~= old(self).credentials@);
        }
        push_at(&mut self.indexes.subject_credentials, subject.0, id);
        self.subject_index_add(subject, id);
        self.type_index_add(credential_type, id);
        proof {
            lemma_indexes_after_issue(old(self).credentials@, old(self).indexes, self.credentials@, self.indexes,
                self.credentials@.last());
        }
        self.indexes.duplicate_keys.push(DuplicateKey { subject, issuer, credential_type });
        set_at(&mut self.holders.activity, subject.0, retained);
        push_at(
            &mut self.cred_data.versions,
            id,
            CredentialVersion { version: 1, metadata: version_metadata, updated_at: now, updated_by: issuer },
        );
        proof {
            assert(list_at(self.cred_data.versions@, id).drop_last() =~= list_at(old(self).cred_data.versions@, id));
            assert forall|k: u64| #[trigger] self.cred_data.versions@.contains_key(k) implies 1 <= k <= self.credentials.len() by {
                if k != id {
                    assert(old(self).cred_data.versions@.remove(id).contains_key(k));
                }
            }
            let l = self.activity_of(subject);
            let r = retained_activity(old(self).activity_of(subject), now);
            assert forall|i: int| 0 <= i < l.len() implies #[trigger] l[i].timestamp <= now by {
                if i < r.len() {
                    assert(l[i] == r[i]);
                }
            }
        }
        id
    }

    /// Why entry `j` of a `batch_issue_credentials` call is refused, given
    /// that the entries before it were issued.
    pub open spec fn batch_issue_item_failure(
        &self,
        now: u64,
        issuer: Address,
        subjects: Seq<Address>,
        types: Seq<u32>,
        hashes: Seq<Seq<u8>>,
        j: int,
    ) -> Option<Fault> {
        if types[j] == 0 {
            Some(Fault::Abort(Abort::ZeroCredentialType))
        } else if self.is_duplicate(subjects[j], issuer, types[j]) || repeats_earlier(subjects, types, j) {
            Some(Fault::Contract(ContractError::DuplicateCredential))
        } else if self.is_blacklisted(issuer, subjects[j]) {
            Some(Fault::Contract(ContractError::HolderBlacklisted))
        } else if hashes[j].len() == 0 {
            Some(Fault::Abort(Abort::EmptyMetadataHash))
        } else if self.credentials.len() + j >= u64::MAX {
            Some(Fault::Abort(Abort::ArithmeticOverflow))
        } else if !none_after(self.activity_of(subjects[j]), now) {
            Some(Fault::Abort(Abort::ArithmeticOverflow))
        } else {
            None
        }
    }

    /// The first refused entry at position `j` or later, with its reason.
    pub open spec fn batch_issue_first_failure(
        &self,
        now: u64,
        issuer: Address,
        subjects: Seq<Address>,
        types: Seq<u32>,
        hashes: Seq<Seq<u8>>,
        j: int,
    ) -> Option<Fault>
        decreases subjects.len() - j,
    {
        if j < 0 || j >= subjects.len() {
            None
        } else if self.batch_issue_item_failure(now, issuer, subjects, types, hashes, j) is Some {
            self.batch_issue_item_failure(now, issuer, subjects, types, hashes, j)
        } else {
            self.batch_issue_first_failure(now, issuer, subjects, types, hashes, j + 1)
        }
    }

    /// The first reason, in the contract's order of checks, to refuse `batch_issue_credentials`.
    pub open spec fn batch_issue_failure(
        &self,
        now: u64,
        issuer: Address,
        subjects: Seq<Address>,
        types: Seq<u32>,
        hashes: Seq<Seq<u8>>,
    ) -> Option<Fault> {
        if self.config.paused {
            Some(Fault::Contract(ContractError::ContractPaused))
        } else if subjects.len() < 1 {
            Some(Fault::Abort(Abort::TooFewElements))
        } else if subjects.len() > MAX_BATCH_SIZE {
            Some(Fault::Abort(Abort::TooManyElements))
        } else if types.len() != subjects.len() || hashes.len() != subjects.len() {
            Some(Fault::Abort(Abort::LengthMismatch))
        } else {
            self.batch_issue_first_failure(now, issuer, subjects, types, hashes, 0)
        }
    }
}

/// Whether an entry before `j` has the subject and type of entry `j`.
pub fn repeats_before(subjects: &Vec<Address>, types: &Vec<u32>, j: usize) -> (b: bool)
    requires
        j < subjects.len(),
        subjects.len() == types.len(),
    ensures
        b == repeats_earlier(subjects@, types@, j as int),
{
    let mut i: usize = 0;
    while i < j
        invariant
            i <= j,
            j < subjects.len(),
            subjects.len() == types.len(),
            forall|k: int| 0 <= k < i ==> !(#[trigger] subjects@[k] == subjects@[j as int] && types@[k] == types@[j as int]),
        decreases j - i,
    {
        if subjects[i] == subjects[j] && types[i] == types[j] {
            return true;
        }
        i += 1;
    }
    false
}

impl QuorumProofContract {
    /// Issues one credential to each subject, with the credential type and
    /// metadata hash at the same position and the shared expiry, in order,
    /// and returns their ids. The whole batch is refused, and nothing
    /// changes, when any entry is refused (`batch_issue_failure`).
    pub fn batch_issue_credentials(
        &mut self,
        now: u64,
        issuer: Address,
        subjects: &Vec<Address>,
        credential_types: &Vec<u32>,
        metadata_hashes: &Vec<Vec<u8>>,
        expires_at: Option<u64>,
    ) -> (r: Result<Vec<u64>, Fault>)
        requires
            old(self).wf(),
        ensures
            final(self).wf(),
            ({
                let failure = old(self).batch_issue_failure(now, issuer, subjects@, credential_types@, byte_views(metadata_hashes@));
                &&& r is Err <==> failure is Some
                &&& r matches Err(f) ==> failure == Some(f) && *final(self) == *old(self)
            }),
            r matches Ok(ids) ==> ids@ == consecutive_ids(old(self).credentials.len() + 1, subjects.len() as int)
                && exists|states: Seq<QuorumProofContract>| #[trigger] issue_chain(states, now, issuer, subjects@,
                    credential_types@, byte_views(metadata_hashes@), same_expiry(expires_at, subjects.len() as int),
                    subjects.len() as int) && states[0] == *old(self) && states.last() == *final(self),
    {
        self.require_not_paused()?;
        let n = subjects.len();
        if n < 1 {
            return Err(Fault::Abort(Abort::TooFewElements));
        }
        if n > MAX_BATCH_SIZE as usize {
            return Err(Fault::Abort(Abort::TooManyElements));
        }
        if credential_types.len() != n || metadata_hashes.len() != n {
            return Err(Fault::Abort(Abort::LengthMismatch));
        }
        let ghost hashes = byte_views(metadata_hashes@);
        let mut j: usize = 0;
        while j < n
            invariant
                n == subjects.len(),
                n == credential_types.len(),
                n == metadata_hashes.len(),
                1 <= n <= MAX_BATCH_SIZE,
                hashes == byte_views(metadata_hashes@),
                j <= n,
                *self == *old(self),
                self.wf(),
                !self.config.paused,
                self.batch_issue_first_failure(now, issuer, subjects@, credential_types@, hashes, 0)
                    == self.batch_issue_first_failure(now, issuer, subjects@, credential_types@, hashes, j as int),
                forall|k: int| 0 <= k < j ==> #[trigger] self.batch_issue_item_failure(now, issuer, subjects@,
                    credential_types@, hashes, k) is None,
            decreases n - j,
        {
            let subject = subjects[j];
            let t = credential_types[j];
            let ghost item = self.batch_issue_item_failure(now, issuer, subjects@, credential_types@, hashes, j as int);
            let failure: Option<Fault> = if t == 0 {
                Some(Fault::Abort(Abort::ZeroCredentialType))
            } else if self.has_duplicate(subject, issuer, t) || repeats_before(subjects, credential_types, j) {
                Some(Fault::Contract(ContractError::DuplicateCredential))
            } else if self.is_holder_blacklisted(issuer, subject) {
                Some(Fault::Contract(ContractError::HolderBlacklisted))
            } else if metadata_hashes[j].len() == 0 {
                Some(Fault::Abort(Abort::EmptyMetadataHash))
            } else if self.credentials.len() as u128 + j as u128 >= u64::MAX as u128 {
                Some(Fault::Abort(Abort::ArithmeticOverflow))
            } else {
                let empty: Vec<ActivityRecord> = Vec::new();
                let log = match self.holders.activity.get(&subject.0) {
                    Some(v) => v,
                    None => &empty,
                };
                assert(log@ == self.activity_of(subject));
                match retain_recent(log, now) {
                    Ok(_) => None,
                    Err(f) => Some(f),
                }
            };
            assert(failure == item);
            if let Some(f) = failure {
                return Err(f);
            }
            j += 1;
        }
        proof {
            assert forall|k: int| 0 <= k < n implies none_after(self.activity_of(#[trigger] subjects@[k]), now) by {
                assert(self.batch_issue_item_failure(now, issuer, subjects@, credential_types@, hashes, k) is None);
            }
        }
        let ghost mut states: Seq<QuorumProofContract> = seq![*self];
        let mut ids: Vec<u64> = Vec::new();
        let mut j: usize = 0;
        while j < n
            invariant
                n == subjects.len(),
                n == credential_types.len(),
                n == metadata_hashes.len(),
                hashes == byte_views(metadata_hashes@),
                j <= n,
                self.wf(),
                self.credentials.len() == old(self).credentials.len() + j,
                forall|k: int| 0 <= k < n ==> #[trigger] old(self).batch_issue_item_failure(now, issuer, subjects@,
                    credential_types@, hashes, k) is None,
                forall|k: int| j <= k < n ==> none_after(self.activity_of(#[trigger] subjects@[k]), now),
                issue_chain(states, now, issuer, subjects@, credential_types@, hashes, same_expiry(expires_at, n as int), j as int),
                states[0] == *old(self),
                states.last() == *self,
                ids@ == consecutive_ids(old(self).credentials.len() + 1, j as int),
            decreases n - j,
        {
            proof {
                assert(old(self).batch_issue_item_failure(now, issuer, subjects@, credential_types@, hashes, j as int) is None);
            }
            let ghost before = *self;
            let ghost chain = states;
            let subject = subjects[j];
            let metadata = copy_bytes(&metadata_hashes[j]);
            let id = self.issue_inner(now, issuer, subject, credential_types[j], metadata, expires_at);
            ids.push(id);
            proof {
                assert(hashes[j as int] == metadata_hashes@[j as int]@);
                states = states.push(*self);
                assert forall|k: int| 0 <= k < j + 1 implies #[trigger] issue_effect(states[k], states[k + 1], now, issuer,
                    subjects@[k], credential_types@[k], hashes[k], same_expiry(expires_at, n as int)[k]) by {
                    if k < j {
                        assert(states[k] == chain[k] && states[k + 1] == chain[k + 1]);
                    }
                }
                assert forall|k: int| j + 1 <= k < n implies none_after(self.activity_of(#[trigger] subjects@[k]), now) by {
                    let s = subjects@[k];
                    assert(none_after(before.activity_of(s), now));
                    if s.0 != subject.0 {
                        assert(self.holders.activity@.remove(subject.0) == before.holders.activity@.remove(subject.0));
                        if before.holders.activity@.contains_key(s.0) {
                            assert(before.holders.activity@.remove(subject.0)[s.0] == before.holders.activity@[s.0]);
                        }
                        if self.holders.activity@.contains_key(s.0) {
                            assert(self.holders.activity@.remove(subject.0)[s.0] == self.holders.activity@[s.0]);
                        }
                        assert(self.activity_of(s) == before.activity_of(s));
                    }
                }
                assert(ids@ =~= consecutive_ids(old(self).credentials.len() + 1, j as int + 1));
            }
            j += 1;
        }
        Ok(ids)
    }
}

/// What the checks of `issue_batch` make of one entry.
#[derive(Clone, Copy, Debug, PartialEq, Eq, Structural)]
pub enum EntryVerdict {
    Accepted,
    /// The entry breaks a validation rule; the batch is answered with it.
    Refused(BatchFailure),
    /// The check itself cannot be carried out and the call fails.
    Aborted(Fault),
}

/// The check of an entry's expiry against `now`: it must lie within the
/// accepted distance of `now`, as `validate_timestamp` measures it.
pub open spec fn expiry_verdict(now: u64, e: u64) -> EntryVerdict {
    if timestamp_in_range(now, e) {
        EntryVerdict::Accepted
    } else {
        EntryVerdict::Refused(BatchFailure::ExpiryOutOfRange)
    }
}

/// Some earlier entry has the subject and credential type of entry `j`.
pub open spec fn input_repeats_earlier(inputs: Seq<CredentialInput>, j: int) -> bool {
    exists|i: int| 0 <= i < j && #[trigger] inputs[i].subject == inputs[j].subject
        && inputs[i].credential_type == inputs[j].credential_type
}

/// The subjects of the entries.
pub open spec fn input_subjects(inputs: Seq<CredentialInput>) -> Seq<Address> {
    Seq::new(inputs.len(), |i: int| inputs[i].subject)
}

/// The credential types of the entries.
pub open spec fn input_types(inputs: Seq<CredentialInput>) -> Seq<u32> {
    Seq::new(inputs.len(), |i: int| inputs[i].credential_type)
}

/// The metadata hashes of the entries.
pub open spec fn input_hashes(inputs: Seq<CredentialInput>) -> Seq<Seq<u8>> {
    Seq::new(inputs.len(), |i: int| inputs[i].metadata_hash@)
}

/// The expiries of the entries.
pub open spec fn input_expiries(inputs: Seq<CredentialInput>) -> Seq<Option<u64>> {
    Seq::new(inputs.len(), |i: int| inputs[i].expires_at)
}

/// Whether an entry before `j` has the subject and type of entry `j`.
pub fn input_repeats_before(inputs: &Vec<CredentialInput>, j: usize) -> (b: bool)
    requires
        j < inputs.len(),
    ensures
        b == input_repeats_earlier(inputs@, j as int),
{
    let mut i: usize = 0;
    while i < j
        invariant
            i <= j,
            j < inputs.len(),
            forall|k: int| 0 <= k < i ==> !(#[trigger] inputs@[k].subject == inputs@[j as int].subject
                && inputs@[k].credential_type == inputs@[j as int].credential_type),
        decreases j - i,
    {
        if inputs[i].subject == inputs[j].subject && inputs[i].credential_type == inputs[j].credential_type {
            return true;
        }
        i += 1;
    }
    false
}

impl QuorumProofContract {
    /// The verdict of `issue_batch`'s checks on entry `j`.
    pub open spec fn entry_verdict(&self, now: u64, issuer: Address, inputs: Seq<CredentialInput>, j: int) -> EntryVerdict {
        let c = inputs[j];
        if c.credential_type == 0 {
            EntryVerdict::Refused(BatchFailure::ZeroCredentialType)
        } else if c.metadata_hash@.len() == 0 {
            EntryVerdict::Refused(BatchFailure::EmptyMetadataHash)
        } else if c.metadata_hash@.len() > MAX_METADATA_SIZE {
            EntryVerdict::Refused(BatchFailure::MetadataHashTooLong)
        } else if c.expires_at is Some && expiry_verdict(now, c.expires_at->Some_0) != EntryVerdict::Accepted {
            expiry_verdict(now, c.expires_at->Some_0)
        } else if self.is_duplicate(c.subject, issuer, c.credential_type) {
            EntryVerdict::Refused(BatchFailure::DuplicateInStorage)
        } else if self.is_blacklisted(issuer, c.subject) {
            EntryVerdict::Refused(BatchFailure::SubjectBlacklisted)
        } else if input_repeats_earlier(inputs, j) {
            EntryVerdict::Refused(BatchFailure::DuplicateInBatch)
        } else {
            EntryVerdict::Accepted
        }
    }

    /// The first entry at position `j` or later that the checks do not
    /// accept, with its verdict.
    pub open spec fn first_unaccepted(&self, now: u64, issuer: Address, inputs: Seq<CredentialInput>, j: int) -> Option<(int, EntryVerdict)>
        decreases inputs.len() - j,
    {
        if j < 0 || j >= inputs.len() {
            None
        } else if self.entry_verdict(now, issuer, inputs, j) != EntryVerdict::Accepted {
            Some((j, self.entry_verdict(now, issuer, inputs, j)))
        } else {
            self.first_unaccepted(now, issuer, inputs, j + 1)
        }
    }

    /// Why issuing accepted entry `j` fails, given that those before it were issued.
    pub open spec fn entry_issue_failure(&self, now: u64, inputs: Seq<CredentialInput>, j: int) -> Option<Fault> {
        if self.credentials.len() + j >= u64::MAX {
            Some(Fault::Abort(Abort::ArithmeticOverflow))
        } else if !none_after(self.activity_of(inputs[j].subject), now) {
            Some(Fault::Abort(Abort::ArithmeticOverflow))
        } else {
            None
        }
    }

    /// The first failure issuing the entries at position `j` or later.
    pub open spec fn first_issue_failure(&self, now: u64, inputs: Seq<CredentialInput>, j: int) -> Option<Fault>
        decreases inputs.len() - j,
    {
        if j < 0 || j >= inputs.len() {
            None
        } else if self.entry_issue_failure(now, inputs, j) is Some {
            self.entry_issue_failure(now, inputs, j)
        } else {
            self.first_issue_failure(now, inputs, j + 1)
        }
    }

    /// Validates every entry before issuing any. An empty batch issues
    /// nothing. The first entry that breaks a rule is reported with its
    /// position in `BatchResult::Rejected`, and nothing is issued; otherwise
    /// every entry is issued in order and their ids are returned.
    pub fn issue_batch(&mut self, now: u64, issuer: Address, credentials: &Vec<CredentialInput>) -> (r: Result<BatchResult, Fault>)
        requires
            old(self).wf(),
        ensures
            final(self).wf(),
            (r is Err || (r matches Ok(BatchResult::Rejected(_)))) ==> *final(self) == *old(self),
            old(self).config.paused ==> r == Err::<BatchResult, Fault>(Fault::Contract(ContractError::ContractPaused)),
            !old(self).config.paused && credentials.len() == 0 ==> (r matches Ok(BatchResult::Issued(ids)) && ids@.len() == 0),
            !old(self).config.paused && credentials.len() > MAX_BATCH_SIZE ==> r == Err::<BatchResult, Fault>(
                Fault::Abort(Abort::TooManyElements)),
            !old(self).config.paused && 1 <= credentials.len() <= MAX_BATCH_SIZE ==> {
                let first = old(self).first_unaccepted(now, issuer, credentials@, 0);
                &&& first matches Some((j, EntryVerdict::Refused(reason))) ==> (r matches Ok(BatchResult::Rejected(e))
                    && e.failing_index == j && e.reason == reason)
                &&& first matches Some((j, EntryVerdict::Aborted(f))) ==> r == Err::<BatchResult, Fault>(f)
                &&& first is None && old(self).first_issue_failure(now, credentials@, 0) is Some ==> r == Err::<BatchResult, Fault>(
                    old(self).first_issue_failure(now, credentials@, 0)->Some_0)
                &&& first is None && old(self).first_issue_failure(now, credentials@, 0) is None ==> (r matches Ok(BatchResult::Issued(ids))
                    && ids@ == consecutive_ids(old(self).credentials.len() + 1, credentials.len() as int)
                    && exists|states: Seq<QuorumProofContract>| #[trigger] issue_chain(states, now, issuer,
                        input_subjects(credentials@), input_types(credentials@), input_hashes(credentials@),
                        input_expiries(credentials@), credentials.len() as int)
                        && states[0] == *old(self) && states.last() == *final(self))
            },
    {
        self.require_not_paused()?;
        let n = credentials.len();
        if n == 0 {
            return Ok(BatchResult::Issued(Vec::new()));
        }
        if n > MAX_BATCH_SIZE as usize {
            return Err(Fault::Abort(Abort::TooManyElements));
        }
        let mut j: usize = 0;
        while j < n
            invariant
                n == credentials.len(),
                1 <= n <= MAX_BATCH_SIZE,
                j <= n,
                *self == *old(self),
                self.wf(),
                !self.config.paused,
                self.first_unaccepted(now, issuer, credentials@, 0) == self.first_unaccepted(now, issuer, credentials@, j as int),
                forall|k: int| 0 <= k < j ==> #[trigger] self.entry_verdict(now, issuer, credentials@, k) == EntryVerdict::Accepted,
            decreases n - j,
        {
            let c = &credentials[j];
            let ghost v = self.entry_verdict(now, issuer, credentials@, j as int);
            let verdict: EntryVerdict = if c.credential_type == 0 {
                EntryVerdict::Refused(BatchFailure::ZeroCredentialType)
            } else if c.metadata_hash.len() == 0 {
                EntryVerdict::Refused(BatchFailure::EmptyMetadataHash)
            } else if c.metadata_hash.len() > MAX_METADATA_SIZE as usize {
                EntryVerdict::Refused(BatchFailure::MetadataHashTooLong)
            } else {
                let ev: EntryVerdict = match c.expires_at {
                    Some(e) => {
                        if Self::validate_timestamp(now, e).is_ok() {
                            EntryVerdict::Accepted
                        } else {
                            EntryVerdict::Refused(BatchFailure::ExpiryOutOfRange)
                        }
                    },
                    None => EntryVerdict::Accepted,
                };
                if ev != EntryVerdict::Accepted {
                    ev
                } else if self.has_duplicate(c.subject, issuer, c.credential_type) {
                    EntryVerdict::Refused(BatchFailure::DuplicateInStorage)
                } else if self.is_holder_blacklisted(issuer, c.subject) {
                    EntryVerdict::Refused(BatchFailure::SubjectBlacklisted)
                } else if input_repeats_before(credentials, j) {
                    EntryVerdict::Refused(BatchFailure::DuplicateInBatch)
                } else {
                    EntryVerdict::Accepted
                }
            };
            assert(verdict == v);
            match verdict {
                EntryVerdict::Accepted => {},
                EntryVerdict::Refused(reason) => {
                    return Ok(BatchResult::Rejected(BatchError { failing_index: j as u32, reason }));
                },
                EntryVerdict::Aborted(f) => {
                    return Err(f);
                },
            }
            j += 1;
        }
        let mut j: usize = 0;
        while j < n
            invariant
                n == credentials.len(),
                1 <= n <= MAX_BATCH_SIZE,
                j <= n,
                *self == *old(self),
                self.wf(),
                !self.config.paused,
                self.first_unaccepted(now, issuer, credentials@, 0) is None,
                self.first_issue_failure(now, credentials@, 0) == self.first_issue_failure(now, credentials@, j as int),
                forall|k: int| 0 <= k < j ==> #[trigger] self.entry_issue_failure(now, credentials@, k) is None,
            decreases n - j,
        {
            let subject = credentials[j].subject;
            let ghost item = self.entry_issue_failure(now, credentials@, j as int);
            let failure: Option<Fault> = if self.credentials.len() as u128 + j as u128 >= u64::MAX as u128 {
                Some(Fault::Abort(Abort::ArithmeticOverflow))
            } else {
                let empty: Vec<ActivityRecord> = Vec::new();
                let log = match self.holders.activity.get(&subject.0) {
                    Some(v) => v,
                    None => &empty,
                };
                assert(log@ == self.activity_of(subject));
                match retain_recent(log, now) {
                    Ok(_) => None,
                    Err(f) => Some(f),
                }
            };
            assert(failure == item);
            if let Some(f) = failure {
                return Err(f);
            }
            j += 1;
        }
        proof {
            assert forall|k: int| 0 <= k < n implies none_after(self.activity_of(#[trigger] input_subjects(credentials@)[k]), now) by {
                assert(self.entry_issue_failure(now, credentials@, k) is None);
            }
        }
        let ghost mut states: Seq<QuorumProofContract> = seq![*self];
        let ghost subjects = input_subjects(credentials@);
        let mut ids: Vec<u64> = Vec::new();
        let mut j: usize = 0;
        while j < n
            invariant
                n == credentials.len(),
                subjects == input_subjects(credentials@),
                j <= n,
                self.wf(),
                self.credentials.len() == old(self).credentials.len() + j,
                forall|k: int| 0 <= k < n ==> #[trigger] old(self).entry_issue_failure(now, credentials@, k) is None,
                forall|k: int| j <= k < n ==> none_after(self.activity_of(#[trigger] subjects[k]), now),
                issue_chain(states, now, issuer, subjects, input_types(credentials@), input_hashes(credentials@),
                    input_expiries(credentials@), j as int),
                states[0] == *old(self),
                states.last() == *self,
                ids@ == consecutive_ids(old(self).credentials.len() + 1, j as int),
            decreases n - j,
        {
            proof {
                assert(old(self).entry_issue_failure(now, credentials@, j as int) is None);
            }
            let ghost before = *self;
            let ghost chain = states;
            let subject = credentials[j].subject;
            assert(subjects[j as int] == subject);
            let metadata = copy_bytes(&credentials[j].metadata_hash);
            let id = self.issue_inner(now, issuer, subject, credentials[j].credential_type, metadata, credentials[j].expires_at);
            ids.push(id);
            proof {
                states = states.push(*self);
                assert forall|k: int| 0 <= k < j + 1 implies #[trigger] issue_effect(states[k], states[k + 1], now, issuer,
                    subjects[k], input_types(credentials@)[k], input_hashes(credentials@)[k], input_expiries(credentials@)[k]) by {
                    if k < j {
                        assert(states[k] == chain[k] && states[k + 1] == chain[k + 1]);
                    }
                }
                assert forall|k: int| j + 1 <= k < n implies none_after(self.activity_of(#[trigger] subjects[k]), now) by {
                    let s = subjects[k];
                    assert(none_after(before.activity_of(s), now));
                    if s.0 != subject.0 {
                        assert(self.holders.activity@.remove(subject.0) == before.holders.activity@.remove(subject.0));
                        if before.holders.activity@.contains_key(s.0) {
                            assert(before.holders.activity@.remove(subject.0)[s.0] == before.holders.activity@[s.0]);
                        }
                        if self.holders.activity@.contains_key(s.0) {
                            assert(self.holders.activity@.remove(subject.0)[s.0] == self.holders.activity@[s.0]);
                        }
                        assert(self.activity_of(s) == before.activity_of(s));
                    }
                }
                assert(ids@ =~= consecutive_ids(old(self).credentials.len() + 1, j as int + 1));
            }
            j += 1;
        }
        Ok(BatchResult::Issued(ids))
    }
}

/// The views of a list of byte strings.
pub open spec fn byte_views(v: Seq<Vec<u8>>) -> Seq<Seq<u8>> {
    Seq::new(v.len(), |i: int| v[i]@)
}

/// The same expiry `e`, `n` times.
pub open spec fn same_expiry(e: Option<u64>, n: int) -> Seq<Option<u64>> {
    Seq::new(n as nat, |i: int| e)
}

} // verus!
