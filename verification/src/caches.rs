use vstd::prelude::*;
use crate::state::{pack_pair, pair_key, QuorumProofContract, Caches, MetadataHashCache};
use crate::types::AttestationVerificationCache;
use crate::store::copy_bytes;

verus! {

broadcast use vstd::std_specs::hash::group_hash_axioms;

/// How long a metadata hash validation stays cached, in seconds.
pub const METADATA_CACHE_TTL_SECS: u64 = 3_600;

/// The verification cache keys of a credential for slices 1 to `n`.
pub open spec fn credential_cache_keys(credential_id: u64, n: int) -> Set<u128> {
    Set::new(|k: u128| exists|s: u64| 1 <= s <= n && k == #[trigger] pair_key(credential_id, s))
}

/// The verification cache keys of a slice for credentials 1 to `n`.
pub open spec fn slice_cache_keys(slice_id: u64, n: int) -> Set<u128> {
    Set::new(|k: u128| exists|c: u64| 1 <= c <= n && k == #[trigger] pair_key(c, slice_id))
}

impl QuorumProofContract {
    /// The cached verification of (credential, slice), if any.
    pub fn get_verification_cache(&self, credential_id: u64, slice_id: u64) -> (c: Option<AttestationVerificationCache>)
        ensures
            c == (if self.caches.verification@.contains_key(pair_key(credential_id, slice_id)) {
                Some(self.caches.verification@[pair_key(credential_id, slice_id)])
            } else {
                None
            }),
    {
        match self.caches.verification.get(&pack_pair(credential_id, slice_id)) {
            Some(c) => Some(*c),
            None => None,
        }
    }

    /// Caches a verification result from `now` for `cache_ttl` seconds (saturating).
    pub fn set_verification_cache(&mut self, now: u64, credential_id: u64, slice_id: u64, is_attested: bool, cache_ttl: u64)
        ensures
            final(self).caches.verification@ == old(self).caches.verification@.insert(
                pair_key(credential_id, slice_id),
                AttestationVerificationCache {
                    credential_id,
                    slice_id,
                    is_attested,
                    cached_at: now,
                    expires_at: if now + cache_ttl <= u64::MAX { (now + cache_ttl) as u64 } else { u64::MAX },
                },
            ),
            final(self).caches.revocation == old(self).caches.revocation,
            final(self).caches.metadata == old(self).caches.metadata,
            final(self).caches.slice_weight == old(self).caches.slice_weight,
            final(self).config == old(self).config,
            final(self).credentials == old(self).credentials,
            final(self).slices == old(self).slices,
            final(self).attestations == old(self).attestations,
            final(self).slice_data == old(self).slice_data,
            final(self).cred_data == old(self).cred_data,
            final(self).indexes == old(self).indexes,
            final(self).holders == old(self).holders,
            final(self).lists == old(self).lists,
            final(self).governance == old(self).governance,
            final(self).consent == old(self).consent,
            final(self).registry == old(self).registry,
            final(self).rate_limits == old(self).rate_limits,
    {
        let cache = AttestationVerificationCache {
            credential_id,
            slice_id,
            is_attested,
            cached_at: now,
            expires_at: now.saturating_add(cache_ttl),
        };
        self.caches.verification.insert(pack_pair(credential_id, slice_id), cache);
    }

    /// Drops the cached verifications of a credential for every slice.
    pub fn invalidate_verification_caches_for_credential(caches: &mut Caches, slice_count: u64, credential_id: u64)
        ensures
            final(caches).verification@ == old(caches).verification@.remove_keys(
                credential_cache_keys(credential_id, slice_count as int),
            ),
            final(caches).revocation == old(caches).revocation,
            final(caches).metadata == old(caches).metadata,
            final(caches).slice_weight == old(caches).slice_weight,
    {
        if slice_count == 0 {
            assert(old(caches).verification@.remove_keys(credential_cache_keys(credential_id, 0)) =~= old(caches).verification@);
            return;
        }
        let mut s: u64 = 1;
        assert(old(caches).verification@.remove_keys(credential_cache_keys(credential_id, 0)) =~= old(caches).verification@);
        while s <= slice_count
            invariant
                1 <= s,
                s <= slice_count + 1,
                caches.verification@ == old(caches).verification@.remove_keys(credential_cache_keys(credential_id, s - 1)),
                caches.revocation == old(caches).revocation,
                caches.metadata == old(caches).metadata,
                caches.slice_weight == old(caches).slice_weight,
            decreases slice_count + 1 - s,
        {
            caches.verification.remove(&pack_pair(credential_id, s));
            proof {
                let prev = credential_cache_keys(credential_id, s - 1);
                let next = credential_cache_keys(credential_id, s as int);
                assert forall|k: u128| next.contains(k) <==> (prev.contains(k) || k == pair_key(credential_id, s)) by {
                    if next.contains(k) {
                        let t = choose|t: u64| 1 <= t <= s && k == #[trigger] pair_key(credential_id, t);
                        if t < s {
                            assert(prev.contains(k));
                        }
                    }
                    if prev.contains(k) {
                        let t = choose|t: u64| 1 <= t <= s - 1 && k == #[trigger] pair_key(credential_id, t);
                        assert(next.contains(k));
                    }
                    if k == pair_key(credential_id, s) {
                        assert(next.contains(k));
                    }
                }
                assert(caches.verification@ =~= old(caches).verification@.remove_keys(next));
            }
            if s == u64::MAX {
                assert(s == slice_count);
                return;
            }
            s += 1;
        }
    }

    /// Drops the cached verifications of a slice for every credential.
    pub fn invalidate_verification_caches_for_slice(caches: &mut Caches, credential_count: u64, slice_id: u64)
        ensures
            final(caches).verification@ == old(caches).verification@.remove_keys(
                slice_cache_keys(slice_id, credential_count as int),
            ),
            final(caches).revocation == old(caches).revocation,
            final(caches).metadata == old(caches).metadata,
            final(caches).slice_weight == old(caches).slice_weight,
    {
        assert(old(caches).verification@.remove_keys(slice_cache_keys(slice_id, 0)) =~= old(caches).verification@);
        if credential_count == 0 {
            return;
        }
        let mut c: u64 = 1;
        while c <= credential_count
            invariant
                1 <= c,
                c <= credential_count + 1,
                caches.verification@ == old(caches).verification@.remove_keys(slice_cache_keys(slice_id, c - 1)),
                caches.revocation == old(caches).revocation,
                caches.metadata == old(caches).metadata,
                caches.slice_weight == old(caches).slice_weight,
            decreases credential_count + 1 - c,
        {
            caches.verification.remove(&pack_pair(c, slice_id));
            proof {
                let prev = slice_cache_keys(slice_id, c - 1);
                let next = slice_cache_keys(slice_id, c as int);
                assert forall|k: u128| next.contains(k) <==> (prev.contains(k) || k == pair_key(c, slice_id)) by {
                    if next.contains(k) {
                        let t = choose|t: u64| 1 <= t <= c && k == #[trigger] pair_key(t, slice_id);
                        if t < c {
                            assert(prev.contains(k));
                        }
                    }
                    if prev.contains(k) {
                        let t = choose|t: u64| 1 <= t <= c - 1 && k == #[trigger] pair_key(t, slice_id);
                        assert(next.contains(k));
                    }
                    if k == pair_key(c, slice_id) {
                        assert(next.contains(k));
                    }
                }
                assert(caches.verification@ =~= old(caches).verification@.remove_keys(next));
            }
            if c == u64::MAX {
                assert(c == credential_count);
                return;
            }
            c += 1;
        }
    }

    /// The cached revocation status of a credential, if any.
    pub fn get_revocation_cache(&self, credential_id: u64) -> (c: Option<bool>)
        ensures
            c == (if self.caches.revocation@.contains_key(credential_id) {
                Some(self.caches.revocation@[credential_id])
            } else {
                None
            }),
    {
        match self.caches.revocation.get(&credential_id) {
            Some(b) => Some(*b),
            None => None,
        }
    }

    /// The cached total weight of a slice, if any.
    pub fn get_slice_weight_cache(&self, slice_id: u64) -> (c: Option<u32>)
        ensures
            c == (if self.caches.slice_weight@.contains_key(slice_id) {
                Some(self.caches.slice_weight@[slice_id])
            } else {
                None
            }),
    {
        match self.caches.slice_weight.get(&slice_id) {
            Some(w) => Some(*w),
            None => None,
        }
    }

    /// The cached metadata validation of a credential, unless it has expired at `now`.
    pub fn get_metadata_cache(&self, now: u64, credential_id: u64) -> (c: Option<&MetadataHashCache>)
        ensures
            c == (if self.caches.metadata@.contains_key(credential_id)
                && now < self.caches.metadata@[credential_id].expires_at {
                Some(&self.caches.metadata@[credential_id])
            } else {
                None
            }),
    {
        match self.caches.metadata.get(&credential_id) {
            Some(c) => {
                if now >= c.expires_at {
                    None
                } else {
                    Some(c)
                }
            },
            None => None,
        }
    }

    /// Caches a metadata validation for `METADATA_CACHE_TTL_SECS` from `now`.
    pub fn set_metadata_cache(&mut self, now: u64, credential_id: u64, metadata_hash: &Vec<u8>, is_valid: bool)
        ensures
            final(self).caches.metadata@.contains_key(credential_id),
            final(self).caches.metadata@.remove(credential_id) == old(self).caches.metadata@.remove(credential_id),
            final(self).caches.metadata@[credential_id].credential_id == credential_id,
            final(self).caches.metadata@[credential_id].metadata_hash@ == metadata_hash@,
            final(self).caches.metadata@[credential_id].is_valid == is_valid,
            final(self).caches.metadata@[credential_id].cached_at == now,
            final(self).caches.metadata@[credential_id].expires_at
                == if now + METADATA_CACHE_TTL_SECS <= u64::MAX { (now + METADATA_CACHE_TTL_SECS) as u64 } else { u64::MAX },
            final(self).caches.verification == old(self).caches.verification,
            final(self).caches.revocation == old(self).caches.revocation,
            final(self).caches.slice_weight == old(self).caches.slice_weight,
            final(self).config == old(self).config,
            final(self).credentials == old(self).credentials,
            final(self).slices == old(self).slices,
            final(self).attestations == old(self).attestations,
            final(self).slice_data == old(self).slice_data,
            final(self).cred_data == old(self).cred_data,
            final(self).indexes == old(self).indexes,
            final(self).holders == old(self).holders,
            final(self).lists == old(self).lists,
            final(self).governance == old(self).governance,
            final(self).consent == old(self).consent,
            final(self).registry == old(self).registry,
            final(self).rate_limits == old(self).rate_limits,
    {
        let cache = MetadataHashCache {
            credential_id,
            metadata_hash: copy_bytes(metadata_hash),
            is_valid,
            cached_at: now,
            expires_at: now.saturating_add(METADATA_CACHE_TTL_SECS),
        };
        self.caches.metadata.insert(credential_id, cache);
        assert(final(self).caches.metadata@.remove(credential_id) =~= old(self).caches.metadata@.remove(credential_id));
    }
}

} // verus!
