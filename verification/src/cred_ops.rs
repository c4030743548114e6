use vstd::prelude::*;
use std::collections::HashMap;
use crate::caches::credential_cache_keys;
use crate::checks::timestamp_in_range;
use crate::credentials::activity_record;
use crate::errors::{Abort, ContractError, Fault};
use crate::lists::{none_after, retained_activity, retain_recent, remove_id, without_id};
use crate::state::{only_changed, cred_data_changed, holders_changed, CredField, HolderField, Part, QuorumProofContract};
use crate::store::{list_at, list_at32, only_key_set, push_at, set_at, copy_bytes, copy_page, page_of};
use crate::types::{
    Address, ActivityRecord, ActivityType, AuditEntry, CompressionType, Credential, CredentialMetadata,
    CredentialVersion, EncryptedCredentialMetadata, TransferRequest,
};
use crate::attest_ops::bytes_equal;

use crate::indexing::lemma_indexes_after_move;

verus! {

broadcast use vstd::std_specs::hash::group_hash_axioms;

/// The subject lists after credential `id` moved from `prev` to `next`:
/// `prev`'s list loses it, `next`'s list gains it at the end, and no other
/// list changes.
pub open spec fn subject_moved(olds: Map<u64, Vec<u64>>, news: Map<u64, Vec<u64>>, prev: Address, next: Address, id: u64) -> bool {
    &&& next != prev ==> list_at(news, prev.0) == without_id(list_at(olds, prev.0), id)
        && list_at(news, next.0) == list_at(olds, next.0).push(id)
    &&& next == prev ==> list_at(news, prev.0) == without_id(list_at(olds, prev.0), id).push(id)
    &&& news.contains_key(prev.0) && news.contains_key(next.0)
    &&& news.remove(prev.0).remove(next.0) == olds.remove(prev.0).remove(next.0)
}

/// Moves credential `id` from `prev`'s list to the end of `next`'s.
pub fn move_subject(m: &mut HashMap<u64, Vec<u64>>, prev: Address, next: Address, id: u64)
    ensures
        subject_moved(old(m)@, final(m)@, prev, next, id),
{
    let empty: Vec<u64> = Vec::new();
    let prev_list = match m.get(&prev.0) {
        Some(v) => v,
        None => &empty,
    };
    assert(prev_list@ == list_at(old(m)@, prev.0));
    let kept = remove_id(prev_list, id);
    set_at(m, prev.0, kept);
    let ghost mid = m@;
    push_at(m, next.0, id);
    proof {
        let olds = old(m)@;
        let news = m@;
        assert(mid.remove(prev.0) == olds.remove(prev.0));
        assert(news.remove(next.0) == mid.remove(next.0));
        assert(news.remove(prev.0).remove(next.0) =~= news.remove(next.0).remove(prev.0));
        assert(mid.remove(next.0).remove(prev.0) =~= mid.remove(prev.0).remove(next.0));
        assert(news.remove(prev.0).remove(next.0) =~= olds.remove(prev.0).remove(next.0));
        if next.0 != prev.0 {
            assert(news.remove(next.0).contains_key(prev.0));
            assert(news.remove(next.0)[prev.0] == news[prev.0]);
            assert(mid.remove(next.0)[prev.0] == mid[prev.0]);
            assert(list_at(news, prev.0) == list_at(mid, prev.0));
            if olds.contains_key(next.0) {
                assert(olds.remove(prev.0)[next.0] == olds[next.0]);
                assert(mid.remove(prev.0)[next.0] == mid[next.0]);
            } else {
                assert(!olds.remove(prev.0).contains_key(next.0));
            }
            assert(list_at(mid, next.0) == list_at(olds, next.0));
        }
    }
}

/// `i` is the position of the first version numbered `v`.
pub open spec fn is_first_version(s: Seq<CredentialVersion>, v: u32, i: int) -> bool {
    &&& 0 <= i < s.len()
    &&& s[i].version == v
    &&& forall|k: int| 0 <= k < i ==> #[trigger] s[k].version != v
}

/// `i` is the position of the version in force at `ts`: the first of the
/// latest versions updated no later than `ts`.
pub open spec fn is_version_at(s: Seq<CredentialVersion>, ts: u64, i: int) -> bool {
    &&& 0 <= i < s.len()
    &&& s[i].updated_at <= ts
    &&& forall|k: int| 0 <= k < s.len() && #[trigger] s[k].updated_at <= ts ==> s[k].updated_at <= s[i].updated_at
    &&& forall|k: int| 0 <= k < i && #[trigger] s[k].updated_at <= ts ==> s[k].updated_at < s[i].updated_at
}

impl QuorumProofContract {
    /// Credential `credential_id`; refused once it has expired at `now`.
    pub fn get_credential(&self, now: u64, credential_id: u64) -> (r: Result<&Credential, Fault>)
        ensures
            !self.has_credential(credential_id) ==> r == Err::<&Credential, Fault>(Fault::Contract(ContractError::CredentialNotFound)),
            self.has_credential(credential_id) && (self.credential_at(credential_id).expires_at matches Some(e) && now >= e)
                ==> r == Err::<&Credential, Fault>(Fault::Abort(Abort::CredentialExpired)),
            self.has_credential(credential_id) && !(self.credential_at(credential_id).expires_at matches Some(e) && now >= e)
                ==> (r matches Ok(c) && *c == self.credential_at(credential_id)),
    {
        let i = match self.find_credential(credential_id) {
            Some(i) => i,
            None => { return Err(Fault::Contract(ContractError::CredentialNotFound)); },
        };
        if let Some(e) = self.credentials[i].expires_at {
            if now >= e {
                return Err(Fault::Abort(Abort::CredentialExpired));
            }
        }
        Ok(&self.credentials[i])
    }

    /// The first reason to refuse `update_metadata`; `None` when it succeeds.
    pub open spec fn update_metadata_failure(&self, issuer: Address, id: u64, new_hash: Seq<u8>) -> Option<Fault> {
        if self.config.paused {
            Some(Fault::Contract(ContractError::ContractPaused))
        } else if new_hash.len() == 0 {
            Some(Fault::Abort(Abort::InvalidArgument))
        } else if !self.has_credential(id) {
            Some(Fault::Contract(ContractError::CredentialNotFound))
        } else if self.credential_at(id).issuer != issuer {
            Some(Fault::Abort(Abort::Unauthorized))
        } else if self.credential_at(id).version == u32::MAX {
            Some(Fault::Abort(Abort::ArithmeticOverflow))
        } else {
            None
        }
    }

    /// The issuer replaces the credential's metadata hash at `now`. The
    /// version goes up by one and is recorded with the new hash, the
    /// change enters the credential's audit trail, and the cached metadata
    /// validation of the credential is dropped.
    pub fn update_metadata(&mut self, now: u64, issuer: Address, credential_id: u64, new_metadata_hash: Vec<u8>) -> (r: Result<(), Fault>)
        requires
            old(self).wf(),
        ensures
            final(self).wf(),
            r is Err <==> old(self).update_metadata_failure(issuer, credential_id, new_metadata_hash@) is Some,
            r matches Err(f) ==> old(self).update_metadata_failure(issuer, credential_id, new_metadata_hash@) == Some(f)
                && *final(self) == *old(self),
            r is Ok ==> {
                let c = old(self).credential_at(credential_id);
                let n = final(self).credential_at(credential_id);
                let versions = list_at(final(self).cred_data.versions@, credential_id);
                let trail = list_at(final(self).cred_data.audit_trails@, credential_id);
                &&& final(self).credentials.len() == old(self).credentials.len()
                &&& forall|k: int| 0 <= k < old(self).credentials.len() && k != credential_id - 1
                    ==> #[trigger] final(self).credentials@[k] == old(self).credentials@[k]
                &&& n.id == c.id && n.subject == c.subject && n.issuer == c.issuer && n.credential_type == c.credential_type
                &&& n.revoked == c.revoked && n.suspended == c.suspended && n.expires_at == c.expires_at
                &&& n.metadata_hash@ == new_metadata_hash@ && n.version == c.version + 1
                &&& versions.drop_last() == list_at(old(self).cred_data.versions@, credential_id)
                &&& versions.len() == list_at(old(self).cred_data.versions@, credential_id).len() + 1
                &&& versions.last().version == c.version + 1 && versions.last().metadata@ == new_metadata_hash@
                &&& versions.last().updated_at == now && versions.last().updated_by == issuer
                &&& only_key_set(old(self).cred_data.versions@, final(self).cred_data.versions@, credential_id)
                &&& trail.drop_last() == list_at(old(self).cred_data.audit_trails@, credential_id)
                &&& trail.len() == list_at(old(self).cred_data.audit_trails@, credential_id).len() + 1
                &&& trail.last().updated_by == issuer && trail.last().timestamp == now
                &&& trail.last().change_summary@ == new_metadata_hash@
                &&& only_key_set(old(self).cred_data.audit_trails@, final(self).cred_data.audit_trails@, credential_id)
                &&& cred_data_changed(old(self).cred_data, final(self).cred_data, set![CredField::Versions, CredField::AuditTrails])
                &&& final(self).caches.metadata@ == old(self).caches.metadata@.remove(credential_id)
                &&& final(self).caches.verification == old(self).caches.verification
                &&& final(self).caches.revocation == old(self).caches.revocation
                &&& final(self).caches.slice_weight == old(self).caches.slice_weight
                &&& only_changed(*old(self), *final(self), set![Part::Credentials, Part::CredData, Part::Caches])
            },
    {
        self.require_not_paused()?;
        if new_metadata_hash.len() == 0 {
            return Err(Fault::Abort(Abort::InvalidArgument));
        }
        let i = match self.find_credential(credential_id) {
            Some(i) => i,
            None => { return Err(Fault::Contract(ContractError::CredentialNotFound)); },
        };
        if self.credentials[i].issuer != issuer {
            return Err(Fault::Abort(Abort::Unauthorized));
        }
        if self.credentials[i].version == u32::MAX {
            return Err(Fault::Abort(Abort::ArithmeticOverflow));
        }
        let version = self.credentials[i].version + 1;
        let for_version = copy_bytes(&new_metadata_hash);
        let for_audit = copy_bytes(&new_metadata_hash);
        self.credentials[i].metadata_hash = new_metadata_hash;
        self.credentials[i].version = version;
        push_at(&mut self.cred_data.versions, credential_id,
            CredentialVersion { version, metadata: for_version, updated_at: now, updated_by: issuer });
        push_at(&mut self.cred_data.audit_trails, credential_id,
            AuditEntry { updated_by: issuer, timestamp: now, change_summary: for_audit });
        self.caches.metadata.remove(&credential_id);
        proof {
            assert(list_at(self.cred_data.versions@, credential_id).drop_last() =~= list_at(old(self).cred_data.versions@, credential_id));
            assert forall|k: u64| #[trigger] self.cred_data.versions@.contains_key(k) implies 1 <= k <= self.credentials.len() by {
                if k != credential_id {
                    assert(old(self).cred_data.versions@.remove(credential_id).contains_key(k));
                }
            }

            assert(list_at(self.cred_data.audit_trails@, credential_id).drop_last() =~= list_at(old(self).cred_data.audit_trails@, credential_id));
        }
        Ok(())
    }

    /// The first reason to refuse a change only the credential's issuer may make.
    pub open spec fn issuer_only_failure(&self, issuer: Address, id: u64) -> Option<Fault> {
        if self.config.paused {
            Some(Fault::Contract(ContractError::ContractPaused))
        } else if !self.has_credential(id) {
            Some(Fault::Contract(ContractError::CredentialNotFound))
        } else if self.credential_at(id).issuer != issuer {
            Some(Fault::Abort(Abort::Unauthorized))
        } else {
            None
        }
    }

    /// The issuer stores metadata, as given, with its compression type.
    pub fn set_credential_metadata(&mut self, issuer: Address, credential_id: u64, metadata: Vec<u8>, compression: CompressionType) -> (r: Result<(), Fault>)
        ensures
            r is Err <==> old(self).issuer_only_failure(issuer, credential_id) is Some,
            r matches Err(f) ==> old(self).issuer_only_failure(issuer, credential_id) == Some(f) && *final(self) == *old(self),
            r is Ok ==> final(self).cred_data.metadata_store@ == old(self).cred_data.metadata_store@.insert(
                credential_id, CredentialMetadata { data: metadata, compression })
                && cred_data_changed(old(self).cred_data, final(self).cred_data, set![CredField::MetadataStore])
                && only_changed(*old(self), *final(self), set![Part::CredData]),
    {
        self.require_not_paused()?;
        let i = match self.find_credential(credential_id) {
            Some(i) => i,
            None => { return Err(Fault::Contract(ContractError::CredentialNotFound)); },
        };
        if self.credentials[i].issuer != issuer {
            return Err(Fault::Abort(Abort::Unauthorized));
        }
        self.cred_data.metadata_store.insert(credential_id, CredentialMetadata { data: metadata, compression });
        Ok(())
    }

    /// The stored metadata of a credential, if any.
    pub fn get_credential_metadata(&self, credential_id: u64) -> (r: Result<Option<&CredentialMetadata>, Fault>)
        ensures
            !self.has_credential(credential_id) ==> r == Err::<Option<&CredentialMetadata>, Fault>(
                Fault::Contract(ContractError::CredentialNotFound)),
            self.has_credential(credential_id) ==> r == Ok::<Option<&CredentialMetadata>, Fault>(
                if self.cred_data.metadata_store@.contains_key(credential_id) {
                    Some(&self.cred_data.metadata_store@[credential_id])
                } else {
                    None
                }),
    {
        if self.find_credential(credential_id).is_none() {
            return Err(Fault::Contract(ContractError::CredentialNotFound));
        }
        Ok(self.cred_data.metadata_store.get(&credential_id))
    }

    /// The credential's subject proposes to pass it to `to`, who must accept.
    pub fn initiate_transfer(&mut self, from: Address, credential_id: u64, to: Address) -> (r: Result<(), Fault>)
        ensures
            ({
                let failure = if old(self).config.paused {
                    Some(Fault::Contract(ContractError::ContractPaused))
                } else if !old(self).has_credential(credential_id) {
                    Some(Fault::Contract(ContractError::CredentialNotFound))
                } else if old(self).credential_at(credential_id).subject != from {
                    Some(Fault::Contract(ContractError::UnauthorizedTransfer))
                } else {
                    None
                };
                &&& r is Err <==> failure is Some
                &&& r matches Err(f) ==> failure == Some(f) && *final(self) == *old(self)
            }),
            r is Ok ==> final(self).cred_data.transfer_requests@ == old(self).cred_data.transfer_requests@.insert(
                credential_id, TransferRequest { credential_id, from, to })
                && cred_data_changed(old(self).cred_data, final(self).cred_data, set![CredField::TransferRequests])
                && only_changed(*old(self), *final(self), set![Part::CredData]),
    {
        self.require_not_paused()?;
        let i = match self.find_credential(credential_id) {
            Some(i) => i,
            None => { return Err(Fault::Contract(ContractError::CredentialNotFound)); },
        };
        if self.credentials[i].subject != from {
            return Err(Fault::Contract(ContractError::UnauthorizedTransfer));
        }
        self.cred_data.transfer_requests.insert(credential_id, TransferRequest { credential_id, from, to });
        Ok(())
    }

    /// The first reason to refuse `accept_transfer`; `None` when it succeeds.
    pub open spec fn accept_transfer_failure(&self, to: Address, id: u64) -> Option<Fault> {
        if self.config.paused {
            Some(Fault::Contract(ContractError::ContractPaused))
        } else if !self.cred_data.transfer_requests@.contains_key(id) || self.cred_data.transfer_requests@[id].to != to {
            Some(Fault::Contract(ContractError::UnauthorizedTransfer))
        } else if !self.has_credential(id) {
            Some(Fault::Contract(ContractError::CredentialNotFound))
        } else {
            None
        }
    }

    /// The recipient named in the pending transfer accepts it: the
    /// credential passes to `to`, moving between the subjects' lists (a
    /// revoked credential is in none and joins none), and the request is
    /// cleared.
    pub fn accept_transfer(&mut self, to: Address, credential_id: u64) -> (r: Result<(), Fault>)
        requires
            old(self).wf(),
        ensures
            final(self).wf(),
            r is Err <==> old(self).accept_transfer_failure(to, credential_id) is Some,
            r matches Err(f) ==> old(self).accept_transfer_failure(to, credential_id) == Some(f) && *final(self) == *old(self),
            r is Ok ==> {
                let c = old(self).credential_at(credential_id);
                &&& final(self).credentials@ == old(self).credentials@.update(credential_id - 1, Credential { subject: to, ..c })
                &&& !c.revoked ==> subject_moved(old(self).indexes.subject_credentials@, final(self).indexes.subject_credentials@, c.subject, to, credential_id)
                &&& !c.revoked ==> subject_moved(old(self).indexes.subject_index@, final(self).indexes.subject_index@, c.subject, to, credential_id)
                &&& c.revoked ==> final(self).indexes.subject_credentials == old(self).indexes.subject_credentials
                    && final(self).indexes.subject_index == old(self).indexes.subject_index
                &&& final(self).indexes.type_index == old(self).indexes.type_index
                &&& final(self).indexes.duplicate_keys == old(self).indexes.duplicate_keys
                &&& final(self).cred_data.transfer_requests@ == old(self).cred_data.transfer_requests@.remove(credential_id)
                &&& cred_data_changed(old(self).cred_data, final(self).cred_data, set![CredField::TransferRequests])
                &&& only_changed(*old(self), *final(self), set![Part::Credentials, Part::Indexes, Part::CredData])
            },
    {
        self.require_not_paused()?;
        let ok = match self.cred_data.transfer_requests.get(&credential_id) {
            Some(req) => req.to == to,
            None => false,
        };
        if !ok {
            return Err(Fault::Contract(ContractError::UnauthorizedTransfer));
        }
        let i = match self.find_credential(credential_id) {
            Some(i) => i,
            None => { return Err(Fault::Contract(ContractError::CredentialNotFound)); },
        };
        let prev = self.credentials[i].subject;
        if !self.credentials[i].revoked {
            move_subject(&mut self.indexes.subject_credentials, prev, to, credential_id);
            move_subject(&mut self.indexes.subject_index, prev, to, credential_id);
        }
        self.credentials[i].subject = to;
        proof {
            let c = old(self).credential_at(credential_id);
            assert(self.credentials@ =~= old(self).credentials@.update(credential_id - 1, Credential { subject: to, ..c }));
        }
        proof {
            lemma_indexes_after_move(old(self).credentials@, old(self).indexes, self.credentials@, self.indexes, i as int, to);
        }
        self.cred_data.transfer_requests.remove(&credential_id);
        Ok(())
    }

    /// The ids listed for a subject: its index list when it has one, its
    /// legacy list otherwise.
    pub open spec fn subject_ids(&self, subject: Address) -> Seq<u64> {
        if self.indexes.subject_index@.contains_key(subject.0) {
            self.indexes.subject_index@[subject.0]@
        } else {
            list_at(self.indexes.subject_credentials@, subject.0)
        }
    }

    /// Page `page` (from 1) of `page_size` ids of the subject's credentials.
    pub fn get_credentials_by_subject(&self, subject: Address, page: u32, page_size: u32) -> (r: Result<Vec<u64>, Fault>)
        ensures
            page == 0 || page_size == 0 ==> r == Err::<Vec<u64>, Fault>(Fault::Contract(ContractError::InvalidInput)),
            page > 0 && page_size > 0 ==> (r matches Ok(v) && v@ == page_of(self.subject_ids(subject), page, page_size)),
    {
        Self::precondition(page > 0)?;
        Self::precondition(page_size > 0)?;
        let empty: Vec<u64> = Vec::new();
        let all = match self.indexes.subject_index.get(&subject.0) {
            Some(v) => v,
            None => match self.indexes.subject_credentials.get(&subject.0) {
                Some(v) => v,
                None => &empty,
            },
        };
        assert(all@ == self.subject_ids(subject));
        Ok(copy_page(all, page, page_size))
    }

    /// The ids of the credentials of a type, as the type index lists them.
    pub fn get_credentials_by_type(&self, credential_type: u32) -> (t: &[u64])
        ensures
            t@ == list_at32(self.indexes.type_index@, credential_type),
    {
        match self.indexes.type_index.get(&credential_type) {
            Some(v) => v.as_slice(),
            None => &[],
        }
    }

    /// Whether `metadata_hash` is a non-empty hash equal to the credential's.
    /// A fresh cached answer for the same hash is given as it stands;
    /// otherwise the answer is cached for an hour.
    pub fn validate_metadata_hash(&mut self, now: u64, credential_id: u64, metadata_hash: &Vec<u8>) -> (b: bool)
        ensures
            ({
                let cached = old(self).caches.metadata@.contains_key(credential_id)
                    && now < old(self).caches.metadata@[credential_id].expires_at
                    && old(self).caches.metadata@[credential_id].metadata_hash@ == metadata_hash@;
                let valid = old(self).has_credential(credential_id) && metadata_hash@.len() > 0
                    && old(self).credential_at(credential_id).metadata_hash@ == metadata_hash@;
                &&& cached ==> b == old(self).caches.metadata@[credential_id].is_valid && *final(self) == *old(self)
                &&& !cached ==> b == valid
                    && final(self).caches.metadata@.contains_key(credential_id)
                    && final(self).caches.metadata@.remove(credential_id) == old(self).caches.metadata@.remove(credential_id)
                    && final(self).caches.metadata@[credential_id].metadata_hash@ == metadata_hash@
                    && final(self).caches.metadata@[credential_id].is_valid == valid
                    && final(self).caches.metadata@[credential_id].cached_at == now
                    && final(self).caches.verification == old(self).caches.verification
                    && final(self).caches.revocation == old(self).caches.revocation
                    && final(self).caches.slice_weight == old(self).caches.slice_weight
                    && only_changed(*old(self), *final(self), set![Part::Caches])
            }),
    {
        if let Some(cache) = self.get_metadata_cache(now, credential_id) {
            if bytes_equal(&cache.metadata_hash, metadata_hash) {
                return cache.is_valid;
            }
        }
        let valid = match self.find_credential(credential_id) {
            Some(i) => metadata_hash.len() > 0 && bytes_equal(&self.credentials[i].metadata_hash, metadata_hash),
            None => false,
        };
        self.set_metadata_cache(now, credential_id, metadata_hash, valid);
        valid
    }

    /// The version history of a credential, oldest first.
    pub fn get_credential_version_history(&self, credential_id: u64) -> (t: &[CredentialVersion])
        ensures
            t@ == list_at(self.cred_data.versions@, credential_id),
    {
        match self.cred_data.versions.get(&credential_id) {
            Some(v) => v.as_slice(),
            None => &[],
        }
    }

    /// The first recorded version numbered `version`.
    pub fn get_credential_version(&self, credential_id: u64, version: u32) -> (r: Result<&CredentialVersion, Fault>)
        ensures
            ({
                let h = list_at(self.cred_data.versions@, credential_id);
                &&& (exists|i: int| 0 <= i < h.len() && #[trigger] h[i].version == version) ==> (r matches Ok(v)
                    && exists|i: int| #[trigger] is_first_version(h, version, i) && *v == h[i])
                &&& !(exists|i: int| 0 <= i < h.len() && #[trigger] h[i].version == version) ==> r == Err::<&CredentialVersion, Fault>(
                    Fault::Contract(ContractError::CredentialVersionNotFound))
            }),
    {
        let h = self.get_credential_version_history(credential_id);
        let mut k: usize = 0;
        while k < h.len()
            invariant
                k <= h.len(),
                h@ == list_at(self.cred_data.versions@, credential_id),
                forall|j: int| 0 <= j < k ==> #[trigger] h@[j].version != version,
            decreases h.len() - k,
        {
            if h[k].version == version {
                proof {
                    assert(is_first_version(h@, version, k as int));
                }
                return Ok(&h[k]);
            }
            k += 1;
        }
        Err(Fault::Contract(ContractError::CredentialVersionNotFound))
    }

    /// The version in force at `timestamp`: the first of the latest versions
    /// updated no later than it.
    pub fn get_version_at(&self, credential_id: u64, timestamp: u64) -> (r: Result<&CredentialVersion, Fault>)
        ensures
            ({
                let h = list_at(self.cred_data.versions@, credential_id);
                &&& (exists|i: int| 0 <= i < h.len() && #[trigger] h[i].updated_at <= timestamp) ==> (r matches Ok(v)
                    && exists|i: int| #[trigger] is_version_at(h, timestamp, i) && *v == h[i])
                &&& !(exists|i: int| 0 <= i < h.len() && #[trigger] h[i].updated_at <= timestamp) ==> r == Err::<&CredentialVersion, Fault>(
                    Fault::Contract(ContractError::CredentialVersionNotFound))
            }),
    {
        let h = self.get_credential_version_history(credential_id);
        let mut best: Option<usize> = None;
        let mut k: usize = 0;
        while k < h.len()
            invariant
                k <= h.len(),
                h@ == list_at(self.cred_data.versions@, credential_id),
                best is None ==> forall|j: int| 0 <= j < k ==> #[trigger] h@[j].updated_at > timestamp,
                best matches Some(b) ==> b < k && h@[b as int].updated_at <= timestamp
                    && (forall|j: int| 0 <= j < k && #[trigger] h@[j].updated_at <= timestamp ==> h@[j].updated_at <= h@[b as int].updated_at)
                    && (forall|j: int| 0 <= j < b && #[trigger] h@[j].updated_at <= timestamp ==> h@[j].updated_at < h@[b as int].updated_at),
            decreases h.len() - k,
        {
            if h[k].updated_at <= timestamp {
                let take = match best {
                    None => true,
                    Some(b) => h[k].updated_at > h[b].updated_at,
                };
                if take {
                    best = Some(k);
                }
            }
            k += 1;
        }
        match best {
            Some(b) => {
                proof {
                    assert(is_version_at(h@, timestamp, b as int));
                }
                Ok(&h[b])
            },
            None => Err(Fault::Contract(ContractError::CredentialVersionNotFound)),
        }
    }
}

} // verus!
