use vstd::prelude::*;
use soroban_sdk::Env;
use crate::credentials::credential_issued;
use crate::errors::{Abort, ContractError, Fault};
use crate::governance::{keys_without, remove_key};
use crate::pow::{be_bytes_u64, pow_outcome};
use crate::state::{only_changed, DuplicateKey, Part, QuorumProofContract};
use crate::types::{Address, ConsentRequest, ShareLink};

verus! {

broadcast use vstd::std_specs::hash::group_hash_axioms;

/// How long a consent request stays open, in seconds (seven days).
pub const CONSENT_REQUEST_TIMEOUT: u64 = 604_800;

/// Seconds in an hour.
pub const SECONDS_PER_HOUR: u64 = 3_600;

/// The number a byte string spells in big-endian order.
pub open spec fn be_value(s: Seq<u8>) -> int
    decreases s.len(),
{
    if s.len() == 0 { 0 } else { be_value(s.drop_last()) * 256 + s.last() }
}

/// The share token of a credential and expiry: the credential id's eight
/// big-endian bytes, then the expiry's.
pub open spec fn share_token(credential_id: u64, expires_at: u64) -> Seq<u8> {
    be_bytes_u64(credential_id) + be_bytes_u64(expires_at)
}

/// `256` to the power `n`.
pub open spec fn pow256(n: nat) -> int
    decreases n,
{
    if n == 0 { 1 } else { 256 * pow256((n - 1) as nat) }
}

proof fn lemma_pow256_monotone(a: nat, b: nat)
    requires
        a <= b,
    ensures
        1 <= pow256(a) <= pow256(b),
    decreases b,
{
    if b > 0 {
        if a < b {
            lemma_pow256_monotone(a, (b - 1) as nat);
        } else {
            lemma_pow256_monotone((a - 1) as nat, (b - 1) as nat);
        }
    }
}

proof fn lemma_be_value_bound(s: Seq<u8>)
    ensures
        0 <= be_value(s) < pow256(s.len()),
    decreases s.len(),
{
    if s.len() > 0 {
        lemma_be_value_bound(s.drop_last());
        let p = pow256(s.drop_last().len());
        assert(be_value(s.drop_last()) * 256 + s.last() < p * 256) by (nonlinear_arith)
            requires
                0 <= be_value(s.drop_last()) < p,
                s.last() < 256,
        ;
        assert(pow256(s.len()) == 256 * p);
    }
}

/// The key under which a token's link is stored: the 16 bytes read as a
/// big-endian number; other lengths have no key.
pub fn token_key(token: &Vec<u8>) -> (k: Option<u128>)
    ensures
        token@.len() == 16 ==> k == Some(be_value(token@) as u128),
        token@.len() != 16 ==> k is None,
{
    if token.len() != 16 {
        return None;
    }
    assert(pow256(16) == 0x1_0000_0000_0000_0000_0000_0000_0000_0000) by {
        reveal_with_fuel(pow256, 17);
    }
    let mut v: u128 = 0;
    let mut i: usize = 0;
    while i < 16
        invariant
            i <= 16,
            token@.len() == 16,
            v == be_value(token@.take(i as int)),
            pow256(16) == 0x1_0000_0000_0000_0000_0000_0000_0000_0000,
        decreases 16 - i,
    {
        proof {
            assert(token@.take(i as int + 1).drop_last() =~= token@.take(i as int));
            lemma_be_value_bound(token@.take(i as int));
            lemma_pow256_monotone(i as nat, 15);
            assert(pow256(16) == 256 * pow256(15));
            assert(v * 256 + token@[i as int] < pow256(16)) by (nonlinear_arith)
                requires
                    0 <= v < pow256(i as nat),
                    pow256(i as nat) <= pow256(15),
                    pow256(16) == 256 * pow256(15),
                    token@[i as int] < 256,
            ;
        }
        v = v * 256 + token[i] as u128;
        i += 1;
    }
    assert(token@.take(16) =~= token@);
    Some(v)
}

impl QuorumProofContract {
    /// The consent request `id`, if stored.
    pub open spec fn consent_at(&self, id: u64) -> ConsentRequest {
        self.consent.requests@[id]
    }

    /// An open request for the (issuer, subject, type) triple is pending.
    pub open spec fn consent_pending(&self, issuer: Address, subject: Address, credential_type: u32) -> bool {
        self.consent.pending@.contains(DuplicateKey { subject, issuer, credential_type })
    }

    /// The first reason to refuse `request_credential`; `None` when it succeeds.
    pub open spec fn request_credential_failure(&self, now: u64, issuer: Address, subject: Address, credential_type: u32) -> Option<Fault> {
        if self.config.paused {
            Some(Fault::Contract(ContractError::ContractPaused))
        } else if self.consent_pending(issuer, subject, credential_type) {
            Some(Fault::Contract(ContractError::ConsentRequestAlreadyExists))
        } else if self.consent.request_count == u64::MAX || now + CONSENT_REQUEST_TIMEOUT > u64::MAX {
            Some(Fault::Abort(Abort::ArithmeticOverflow))
        } else {
            None
        }
    }

    /// An issuer asks `subject` for consent to issue a credential of a type
    /// with a metadata hash. The request, number one more than those so
    /// far, stays open for seven days from `now`; one may be pending per
    /// (issuer, subject, type).
    pub fn request_credential(
        &mut self,
        now: u64,
        issuer: Address,
        subject: Address,
        credential_type: u32,
        metadata_hash: Vec<u8>,
    ) -> (r: Result<u64, Fault>)
        ensures
            r is Err <==> old(self).request_credential_failure(now, issuer, subject, credential_type) is Some,
            r matches Err(f) ==> old(self).request_credential_failure(now, issuer, subject, credential_type) == Some(f)
                && *final(self) == *old(self),
            r matches Ok(id) ==> {
                &&& id == old(self).consent.request_count + 1
                &&& final(self).consent.request_count == id
                &&& final(self).consent.requests@ == old(self).consent.requests@.insert(id, ConsentRequest {
                    id, issuer, subject, credential_type, metadata_hash,
                    expires_at_ts: (now + CONSENT_REQUEST_TIMEOUT) as u64, approved: false })
                &&& final(self).consent.pending@ == old(self).consent.pending@.push(DuplicateKey { subject, issuer, credential_type })
                &&& final(self).consent.share_links == old(self).consent.share_links
                &&& only_changed(*old(self), *final(self), set![Part::Consent])
            },
    {
        self.require_not_paused()?;
        let key = DuplicateKey { subject, issuer, credential_type };
        let mut k: usize = 0;
        while k < self.consent.pending.len()
            invariant
                k <= self.consent.pending.len(),
                *self == *old(self),
                !self.config.paused,
                key == (DuplicateKey { subject, issuer, credential_type }),
                forall|j: int| 0 <= j < k ==> self.consent.pending@[j] != key,
            decreases self.consent.pending.len() - k,
        {
            if self.consent.pending[k] == key {
                proof {
                    assert(self.consent.pending@[k as int] == key);
                    assert(self.consent.pending@.contains(key));
                }
                return Err(Fault::Contract(ContractError::ConsentRequestAlreadyExists));
            }
            k += 1;
        }
        if self.consent.request_count == u64::MAX || now > u64::MAX - CONSENT_REQUEST_TIMEOUT {
            return Err(Fault::Abort(Abort::ArithmeticOverflow));
        }
        let id = self.consent.request_count + 1;
        self.consent.requests.insert(id, ConsentRequest {
            id,
            issuer,
            subject,
            credential_type,
            metadata_hash,
            expires_at_ts: now + CONSENT_REQUEST_TIMEOUT,
            approved: false,
        });
        self.consent.request_count = id;
        self.consent.pending.push(key);
        Ok(id)
    }

    /// The first reason to refuse `approve_credential_request`; `None` when it succeeds.
    pub open spec fn approve_request_failure(&self, now: u64, subject: Address, id: u64) -> Option<Fault> {
        if !self.consent.requests@.contains_key(id) {
            Some(Fault::Contract(ContractError::ConsentRequestNotFound))
        } else if self.consent_at(id).subject != subject {
            Some(Fault::Abort(Abort::Unauthorized))
        } else if now > self.consent_at(id).expires_at_ts {
            Some(Fault::Contract(ContractError::ConsentRequestExpired))
        } else {
            None
        }
    }

    /// The subject approves an open consent request addressed to it.
    pub fn approve_credential_request(&mut self, now: u64, subject: Address, request_id: u64) -> (r: Result<(), Fault>)
        ensures
            r is Err <==> old(self).approve_request_failure(now, subject, request_id) is Some,
            r matches Err(f) ==> old(self).approve_request_failure(now, subject, request_id) == Some(f)
                && *final(self) == *old(self),
            r is Ok ==> {
                let q = final(self).consent_at(request_id);
                let p = old(self).consent_at(request_id);
                &&& final(self).consent.requests@.contains_key(request_id)
                &&& final(self).consent.requests@.remove(request_id) == old(self).consent.requests@.remove(request_id)
                &&& q.id == p.id && q.issuer == p.issuer && q.subject == p.subject && q.credential_type == p.credential_type
                &&& q.metadata_hash@ == p.metadata_hash@ && q.expires_at_ts == p.expires_at_ts && q.approved
                &&& final(self).consent.request_count == old(self).consent.request_count
                &&& final(self).consent.pending == old(self).consent.pending
                &&& final(self).consent.share_links == old(self).consent.share_links
                &&& only_changed(*old(self), *final(self), set![Part::Consent])
            },
    {
        let ok = match self.consent.requests.get(&request_id) {
            None => { return Err(Fault::Contract(ContractError::ConsentRequestNotFound)); },
            Some(q) => {
                if q.subject != subject {
                    return Err(Fault::Abort(Abort::Unauthorized));
                }
                if now > q.expires_at_ts {
                    return Err(Fault::Contract(ContractError::ConsentRequestExpired));
                }
                true
            },
        };
        let mut q = match self.consent.requests.remove(&request_id) {
            Some(q) => q,
            None => { return Err(Fault::Contract(ContractError::ConsentRequestNotFound)); },
        };
        q.approved = ok;
        self.consent.requests.insert(request_id, q);
        proof {
            assert(self.consent.requests@.remove(request_id) =~= old(self).consent.requests@.remove(request_id));
        }
        Ok(())
    }

    /// Consent request `request_id`, or `ConsentRequestNotFound`.
    pub fn get_consent_request(&self, request_id: u64) -> (r: Result<&ConsentRequest, Fault>)
        ensures
            r == (if self.consent.requests@.contains_key(request_id) {
                Ok::<&ConsentRequest, Fault>(&self.consent.requests@[request_id])
            } else {
                Err(Fault::Contract(ContractError::ConsentRequestNotFound))
            }),
    {
        match self.consent.requests.get(&request_id) {
            Some(q) => Ok(q),
            None => Err(Fault::Contract(ContractError::ConsentRequestNotFound)),
        }
    }

    /// The first reason to refuse `issue_with_consent` before the credential
    /// itself is checked; `None` when the consent allows it.
    pub open spec fn consent_use_failure(&self, now: u64, issuer: Address, id: u64) -> Option<Fault> {
        if !self.consent.requests@.contains_key(id) {
            Some(Fault::Contract(ContractError::ConsentRequestNotFound))
        } else if self.consent_at(id).issuer != issuer {
            Some(Fault::Abort(Abort::Unauthorized))
        } else if !self.consent_at(id).approved {
            Some(Fault::Contract(ContractError::ConsentNotGranted))
        } else if now > self.consent_at(id).expires_at_ts {
            Some(Fault::Contract(ContractError::ConsentRequestExpired))
        } else {
            None
        }
    }

    /// Issues the credential of an approved, open consent request with no
    /// expiry, as `issue_credential` would, and consumes the request.
    pub fn issue_with_consent(
        &mut self,
        env: &Env,
        now: u64,
        issuer: Address,
        request_id: u64,
        nonce: u64,
    ) -> (r: Result<u64, Fault>)
        requires
            old(self).wf(),
        ensures
            final(self).wf(),
            ({
                let q = old(self).consent_at(request_id);
                let failure = if old(self).consent_use_failure(now, issuer, request_id) is Some {
                    old(self).consent_use_failure(now, issuer, request_id)
                } else {
                    old(self).issue_credential_failure(now, q.issuer, q.subject, q.credential_type, q.metadata_hash@, None,
                        pow_outcome(old(self).config.pow_difficulty, old(self).encoding_of(q.issuer), old(self).encoding_of(q.subject), q.credential_type, nonce))
                };
                &&& r is Err <==> failure is Some
                &&& r matches Err(f) ==> failure == Some(f) && *final(self) == *old(self)
            }),
            r matches Ok(id) ==> {
                let q = old(self).consent_at(request_id);
                &&& id == old(self).credentials.len() + 1
                &&& final(self).consent.requests@ == old(self).consent.requests@.remove(request_id)
                &&& final(self).consent.pending@ == keys_without(old(self).consent.pending@,
                    DuplicateKey { subject: q.subject, issuer: q.issuer, credential_type: q.credential_type })
                &&& final(self).consent.request_count == old(self).consent.request_count
                &&& final(self).consent.share_links == old(self).consent.share_links
                &&& exists|mid: QuorumProofContract| #[trigger] credential_issued(*old(self), mid, now, q.issuer, q.subject,
                    q.credential_type, q.metadata_hash@, None) && only_changed(mid, *final(self), set![Part::Consent])
            },
    {
        let (subject, credential_type, metadata) = match self.consent.requests.get(&request_id) {
            None => { return Err(Fault::Contract(ContractError::ConsentRequestNotFound)); },
            Some(q) => {
                if q.issuer != issuer {
                    return Err(Fault::Abort(Abort::Unauthorized));
                }
                if !q.approved {
                    return Err(Fault::Contract(ContractError::ConsentNotGranted));
                }
                if now > q.expires_at_ts {
                    return Err(Fault::Contract(ContractError::ConsentRequestExpired));
                }
                let m = q.metadata_hash.clone();
                assert(m@ =~= q.metadata_hash@);
                (q.subject, q.credential_type, m)
            },
        };
        let id = self.issue_credential(env, now, issuer, subject, credential_type, metadata, None, nonce)?;
        let ghost mid = *self;
        let pending = remove_key(&self.consent.pending, DuplicateKey { subject, issuer, credential_type });
        self.consent.pending = pending;
        self.consent.requests.remove(&request_id);
        proof {
            assert(only_changed(mid, *self, set![Part::Consent]));
        }
        Ok(id)
    }

    /// The holder of a credential makes a share token, valid for
    /// `expiry_hours` hours from `now` (`share_token`), and returns it.
    pub fn generate_share_link(&mut self, now: u64, subject: Address, credential_id: u64, expiry_hours: u32) -> (r: Result<Vec<u8>, Fault>)
        ensures
            ({
                let failure = if old(self).config.paused {
                    Some(Fault::Contract(ContractError::ContractPaused))
                } else if expiry_hours == 0 {
                    Some(Fault::Abort(Abort::InvalidArgument))
                } else if !old(self).has_credential(credential_id) {
                    Some(Fault::Contract(ContractError::CredentialNotFound))
                } else if now + expiry_hours * SECONDS_PER_HOUR > u64::MAX {
                    Some(Fault::Abort(Abort::ArithmeticOverflow))
                } else {
                    None
                };
                &&& r is Err <==> failure is Some
                &&& r matches Err(f) ==> failure == Some(f) && *final(self) == *old(self)
            }),
            r matches Ok(token) ==> {
                let expires_at = (now + expiry_hours * SECONDS_PER_HOUR) as u64;
                &&& token@ == share_token(credential_id, expires_at)
                &&& final(self).consent.share_links@ == old(self).consent.share_links@.insert(
                    be_value(token@) as u128, ShareLink { credential_id, expires_at })
                &&& final(self).consent.requests == old(self).consent.requests
                &&& final(self).consent.request_count == old(self).consent.request_count
                &&& final(self).consent.pending == old(self).consent.pending
                &&& only_changed(*old(self), *final(self), set![Part::Consent])
            },
    {
        self.require_not_paused()?;
        if expiry_hours == 0 {
            return Err(Fault::Abort(Abort::InvalidArgument));
        }
        if self.find_credential(credential_id).is_none() {
            return Err(Fault::Contract(ContractError::CredentialNotFound));
        }
        let span: u64 = expiry_hours as u64 * SECONDS_PER_HOUR;
        if now > u64::MAX - span {
            return Err(Fault::Abort(Abort::ArithmeticOverflow));
        }
        let expires_at = now + span;
        let mut token: Vec<u8> = Vec::new();
        push_be_u64(&mut token, credential_id);
        push_be_u64(&mut token, expires_at);
        assert(token@ =~= share_token(credential_id, expires_at));
        let key = match token_key(&token) {
            Some(k) => k,
            None => 0,
        };
        self.consent.share_links.insert(key, ShareLink { credential_id, expires_at });
        Ok(token)
    }

    /// The credential a share token stands for, while it is unexpired at
    /// `now`; an unknown or expired token is refused as invalid input.
    pub fn validate_share_token(&self, now: u64, token: &Vec<u8>) -> (r: Result<u64, Fault>)
        ensures
            ({
                let links = self.consent.share_links@;
                let k = be_value(token@) as u128;
                &&& (token@.len() == 16 && links.contains_key(k) && now < links[k].expires_at)
                    ==> r == Ok::<u64, Fault>(links[k].credential_id)
                &&& !(token@.len() == 16 && links.contains_key(k) && now < links[k].expires_at)
                    ==> r == Err::<u64, Fault>(Fault::Contract(ContractError::InvalidInput))
            }),
    {
        let key = match token_key(token) {
            Some(k) => k,
            None => { return Err(Fault::Contract(ContractError::InvalidInput)); },
        };
        match self.consent.share_links.get(&key) {
            Some(link) => {
                if now >= link.expires_at {
                    Err(Fault::Contract(ContractError::InvalidInput))
                } else {
                    Ok(link.credential_id)
                }
            },
            None => Err(Fault::Contract(ContractError::InvalidInput)),
        }
    }
}

/// Appends the eight big-endian bytes of `x`.
pub fn push_be_u64(v: &mut Vec<u8>, x: u64)
    ensures
        final(v)@ == old(v)@ + be_bytes_u64(x),
{
    v.push((x / 0x100_0000_0000_0000) as u8);
    v.push(((x / 0x1_0000_0000_0000) % 0x100) as u8);
    v.push(((x / 0x100_0000_0000) % 0x100) as u8);
    v.push(((x / 0x1_0000_0000) % 0x100) as u8);
    v.push(((x / 0x100_0000) % 0x100) as u8);
    v.push(((x / 0x1_0000) % 0x100) as u8);
    v.push(((x / 0x100) % 0x100) as u8);
    v.push((x % 0x100) as u8);
    assert(final(v)@ =~= old(v)@ + be_bytes_u64(x));
}

} // verus!
