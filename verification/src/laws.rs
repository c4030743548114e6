use vstd::prelude::*;
use crate::attestation::{attest_chain, attest_effect, batch_succeeds, chain_link, new_record, same_contents};
use crate::caches::credential_cache_keys;
use crate::consent::{be_value, share_token};
use crate::errors::{Abort, ContractError, Fault};
use crate::pow::be_bytes_u64;
use crate::quorum::{attested_weight, attested_weight_sum, cap_u32, fork_spec, has_attested, lemma_first_index, lemma_weight_sum_nonneg, member_weight, record_weight};
use crate::revocation::revocation_applied;
use crate::governance::{keys_without, lemma_keys_without};
use crate::indexing::{held_by, subject_lists_wf};
use crate::state::{pair_key, DuplicateKey, QuorumProofContract};
use crate::store::{count_at, list_at, list_at32, page_of, sat_mul32};
use crate::records::{lemma_matching_ids_ascending, matching_ids};
use crate::challenges::{lemma_votes_weight_sum_nonneg, records_without, votes_weight};
use crate::verdicts::reputation_of;
use vstd::arithmetic::div_mod::{lemma_fundamental_div_mod, lemma_div_pos_is_pos, lemma_div_is_ordered_by_denominator};
use vstd::arithmetic::div_mod::lemma_mod_bound;
use crate::types::{Address, AttestationRecord, QuorumSlice, ShareLink};

verus! {

/// An attestor cannot attest the same credential twice: once its
/// attestation is recorded, attesting the credential again through the
/// slice is refused as a repeat.
pub proof fn lemma_attest_no_repeat(
    a: QuorumProofContract,
    b: QuorumProofContract,
    now: u64,
    attestor: Address,
    cred: u64,
    slice_id: u64,
    value: bool,
    expires_at: Option<u64>,
    later: u64,
)
    requires
        a.attest_record_failure(now, attestor, cred, slice_id, value) is None,
        attest_effect(a, b, now, attestor, cred, slice_id, value, expires_at),
    ensures
        b.attest_record_failure(later, attestor, cred, slice_id, value) == Some(Fault::Abort(Abort::AlreadyAttested)),
{
    let old_records = a.records_of(cred);
    let records = b.records_of(cred);
    assert(records == old_records.push(new_record(attestor, now, expires_at, value)));
    assert(b.slices == a.slices);
    if fork_spec(b.slice_at(slice_id), records, attestor, value) {
        let i = choose|i: int| 0 <= i < records.len()
            && b.slice_at(slice_id).attestors@.contains(#[trigger] records[i].attestor)
            && records[i].attestation_value != value;
        if i < old_records.len() {
            assert(records[i] == old_records[i]);
            assert(fork_spec(a.slice_at(slice_id), old_records, attestor, value));
        }
        assert(false);
    }
    assert(records[records.len() - 1].attestor == attestor);
    assert(has_attested(records, attestor));
}

/// A new attestation never lowers the attested weight of a credential.
pub proof fn lemma_attested_weight_monotone(
    slice: QuorumSlice,
    suspended: Map<u128, bool>,
    slice_id: u64,
    skip_suspended: bool,
    now: u64,
    records: Seq<AttestationRecord>,
    rec: AttestationRecord,
)
    ensures
        attested_weight(slice, suspended, slice_id, skip_suspended, now, records)
            <= attested_weight(slice, suspended, slice_id, skip_suspended, now, records.push(rec)),
{
    assert(records.push(rec).drop_last() =~= records);
    assert(record_weight(slice, suspended, slice_id, skip_suspended, now, rec) >= 0);
}

/// A revoked credential is not attested through any stored slice: the
/// revocation drops its cached verdicts and `is_attested` then answers
/// `false`.
pub proof fn lemma_revoked_not_attested(
    a: QuorumProofContract,
    b: QuorumProofContract,
    id: u64,
    revoker: Address,
    revoked_at: u64,
    now: u64,
    slice_id: u64,
)
    requires
        a.has_credential(id),
        1 <= slice_id <= a.slices.len(),
        revocation_applied(a, b, id, revoker, revoked_at),
    ensures
        b.is_attested_outcome(now, id, slice_id) == Ok::<bool, Fault>(false),
{
    assert(credential_cache_keys(id, a.slices.len() as int).contains(pair_key(id, slice_id)));
    assert(!b.caches.verification@.contains_key(pair_key(id, slice_id)));
    assert(b.credentials@[id - 1] == b.credential_at(id));
    assert(b.credential_at(id).revoked);
}

/// A revoked credential can be neither suspended, resumed, renewed nor
/// attested: each of these refuses it.
pub proof fn lemma_revoked_is_final(
    c: QuorumProofContract,
    now: u64,
    caller: Address,
    id: u64,
    new_expires_at: u64,
    slice_id: u64,
    value: bool,
)
    requires
        c.has_credential(id),
        c.credential_at(id).revoked,
    ensures
        c.suspend_failure(now, caller, id) is Some,
        c.resume_failure(now, caller, id) is Some,
        c.renew_failure(now, caller, id, new_expires_at) is Some,
        c.renew_with_grace_failure(now, caller, id) is Some,
        c.attest_credential_failure(now, id) == Some(Fault::Abort(Abort::CredentialRevoked)),
{
}

/// A paused contract refuses attestations, issuance, revocation and slice
/// messages with `ContractPaused`.
pub proof fn lemma_paused_refuses_writes(
    c: QuorumProofContract,
    now: u64,
    caller: Address,
    other: Address,
    id: u64,
    slice_id: u64,
    value: bool,
    expires_at: Option<u64>,
    credential_type: u32,
    metadata: Seq<u8>,
    pow: Result<(), Fault>,
)
    requires
        c.config.paused,
    ensures
        c.attest_failure(now, caller, id, slice_id, value, expires_at) == Some(Fault::Contract(ContractError::ContractPaused)),
        c.issue_credential_failure(now, caller, other, credential_type, metadata, expires_at, pow)
            == Some(Fault::Contract(ContractError::ContractPaused)),
        c.revoke_credential_failure(now, caller, id) == Some(Fault::Contract(ContractError::ContractPaused)),
        c.send_message_failure(caller, slice_id) == Some(Fault::Contract(ContractError::ContractPaused)),
        c.renew_attestation_failure(now, caller, id, now) == Some(Fault::Contract(ContractError::ContractPaused)),
{
}

/// An attestation that contradicts one a member of the slice already made
/// is refused as a fork.
pub proof fn lemma_conflicting_attestation_refused(
    c: QuorumProofContract,
    now: u64,
    attestor: Address,
    cred: u64,
    slice_id: u64,
    value: bool,
    i: int,
)
    requires
        c.slice_at(slice_id).attestors@.contains(attestor),
        0 <= i < c.records_of(cred).len(),
        c.slice_at(slice_id).attestors@.contains(c.records_of(cred)[i].attestor),
        c.records_of(cred)[i].attestation_value != value,
    ensures
        c.attest_record_failure(now, attestor, cred, slice_id, value) == Some(Fault::Contract(ContractError::ForkDetected)),
{
    assert(fork_spec(c.slice_at(slice_id), c.records_of(cred), attestor, value));
}

/// A share token is sixteen bytes long.
pub proof fn lemma_share_token_len(credential_id: u64, expires_at: u64)
    ensures
        share_token(credential_id, expires_at).len() == 16,
{
}

/// A share link gives back its credential until it expires: once
/// `generate_share_link` has stored the link under its token, the token
/// meets every condition under which `validate_share_token` answers the
/// credential id, at any time before the expiry.
pub proof fn lemma_share_link_round_trip(
    before: Map<u128, ShareLink>,
    links: Map<u128, ShareLink>,
    token: Seq<u8>,
    credential_id: u64,
    expires_at: u64,
    now: u64,
)
    requires
        token == share_token(credential_id, expires_at),
        links == before.insert(be_value(token) as u128, ShareLink { credential_id, expires_at }),
        now < expires_at,
    ensures
        token.len() == 16,
        links.contains_key(be_value(token) as u128),
        now < links[be_value(token) as u128].expires_at,
        links[be_value(token) as u128].credential_id == credential_id,
{
}

/// After a recovery moves a credential from `prev` to `next`, the
/// duplicate guard refuses the same issuer issuing the same type to `next`
/// again, and no longer refuses it for `prev`: `issue_credential` to `next`
/// is refused, as a duplicate wherever the same call for `prev` would
/// succeed, and `issue_credential` to `prev` is never refused as a
/// duplicate.
pub proof fn lemma_recovery_moves_duplicate_guard(
    a: QuorumProofContract,
    b: QuorumProofContract,
    prev: Address,
    next: Address,
    issuer: Address,
    credential_type: u32,
    now: u64,
    metadata_hash: Seq<u8>,
    expires_at: Option<u64>,
    pow: Result<(), Fault>,
)
    requires
        next != prev,
        b.indexes.duplicate_keys@ == keys_without(a.indexes.duplicate_keys@,
            DuplicateKey { subject: prev, issuer, credential_type }).push(
            DuplicateKey { subject: next, issuer, credential_type }),
    ensures
        b.is_duplicate(next, issuer, credential_type),
        !b.is_duplicate(prev, issuer, credential_type),
        b.issue_credential_failure(now, issuer, next, credential_type, metadata_hash, expires_at, pow) is Some,
        b.issue_credential_failure(now, issuer, prev, credential_type, metadata_hash, expires_at, pow) is None
            ==> b.issue_credential_failure(now, issuer, next, credential_type, metadata_hash, expires_at, pow)
                == Some(Fault::Contract(ContractError::DuplicateCredential)),
        pow is Ok ==> b.issue_credential_failure(now, issuer, prev, credential_type, metadata_hash, expires_at, pow)
            != Some(Fault::Contract(ContractError::DuplicateCredential)),
{
    let k = DuplicateKey { subject: prev, issuer, credential_type };
    let rest = keys_without(a.indexes.duplicate_keys@, k);
    lemma_keys_without(a.indexes.duplicate_keys@, k);
    let keys = b.indexes.duplicate_keys@;
    assert(keys[rest.len() as int].subject == next);
    if b.is_duplicate(prev, issuer, credential_type) {
        let i = choose|i: int| 0 <= i < keys.len() && #[trigger] keys[i].subject == prev
            && keys[i].issuer == issuer && keys[i].credential_type == credential_type;
        assert(keys[i] == k);
        assert(i < rest.len());
        assert(rest[i] == k);
        assert(rest.contains(k));
    }
}

/// The lookups agree with the credentials: a subject's listing holds
/// exactly the credentials issued to that subject that are not revoked,
/// once each; a type's index lists exactly the
/// credentials of that type that are not revoked, once each.
pub proof fn lemma_lookups_agree_with_credentials(c: QuorumProofContract, subject: Address, credential_type: u32)
    requires
        c.wf(),
    ensures
        forall|id: u64| #[trigger] c.subject_ids(subject).contains(id)
            <==> c.has_credential(id) && c.credential_at(id).subject == subject && !c.credential_at(id).revoked,
        c.subject_ids(subject).no_duplicates(),
        forall|id: u64| #[trigger] list_at32(c.indexes.type_index@, credential_type).contains(id)
            <==> c.has_credential(id) && c.credential_at(id).credential_type == credential_type
                && !c.credential_at(id).revoked,
        list_at32(c.indexes.type_index@, credential_type).no_duplicates(),
{
    let creds = c.credentials@;
    let ids = c.subject_ids(subject);
    let m = if c.indexes.subject_index@.contains_key(subject.0) {
        c.indexes.subject_index@
    } else {
        c.indexes.subject_credentials@
    };
    assert(ids == list_at(m, subject.0));
    assert(subject_lists_wf(creds, m));
    assert forall|id: u64| #[trigger] ids.contains(id)
        <==> c.has_credential(id) && c.credential_at(id).subject == subject && !c.credential_at(id).revoked by {
        if ids.contains(id) {
            assert(held_by(creds, id, subject.0));
        }
        if c.has_credential(id) && c.credential_at(id).subject == subject && !c.credential_at(id).revoked {
            let i = id - 1;
            assert(creds[i].id == id);
        }
    }
    assert forall|id: u64| #[trigger] list_at32(c.indexes.type_index@, credential_type).contains(id)
        <==> c.has_credential(id) && c.credential_at(id).credential_type == credential_type
            && !c.credential_at(id).revoked by {
        if c.has_credential(id) && c.credential_at(id).credential_type == credential_type && !c.credential_at(id).revoked {
            let i = id - 1;
            assert(creds[i].id == id);
        }
    }
}

/// A batch attestation is `attest` applied in order: a batch that succeeds
/// is the batch of all its credentials but the last, which succeeds,
/// followed by an accepted attestation of the last one with exactly the
/// effect that `attest` has; a batch of one credential has that effect on
/// the state it starts from.
pub proof fn lemma_batch_attest_in_order(
    start: QuorumProofContract,
    end: QuorumProofContract,
    now: u64,
    attestor: Address,
    ids: Seq<u64>,
    slice_id: u64,
    value: bool,
    expires_at: Option<u64>,
)
    requires
        ids.len() >= 1,
        batch_succeeds(start, end, now, attestor, ids, slice_id, value, expires_at),
    ensures
        exists|mid: QuorumProofContract|
            #[trigger] batch_succeeds(start, mid, now, attestor, ids.drop_last(), slice_id, value, expires_at)
                && mid.attest_item_failure(now, attestor, ids.last(), slice_id, value) is None
                && attest_effect(mid, end, now, attestor, ids.last(), slice_id, value, expires_at),
        ids.len() == 1 ==> start.attest_item_failure(now, attestor, ids[0], slice_id, value) is None
            && attest_effect(start, end, now, attestor, ids[0], slice_id, value, expires_at),
{
    let states = choose|states: Seq<QuorumProofContract>|
        #[trigger] attest_chain(states, now, attestor, ids, slice_id, value, expires_at)
            && same_contents(states[0], start)
            && same_contents(states.last(), end);
    let n = ids.len() - 1;
    let init = states.drop_last();
    let mid = states[n];
    assert(attest_chain(init, now, attestor, ids.drop_last(), slice_id, value, expires_at)) by {
        assert forall|j: int| 0 <= j < ids.drop_last().len() implies #[trigger] chain_link(
            init, j, now, attestor, ids.drop_last()[j], slice_id, value, expires_at) by {
            assert(chain_link(states, j, now, attestor, ids[j], slice_id, value, expires_at));
            assert(init[j] == states[j] && init[j + 1] == states[j + 1]);
        }
    }
    assert(init[0] == states[0]);
    assert(init.last() == mid);
    assert(batch_succeeds(start, mid, now, attestor, ids.drop_last(), slice_id, value, expires_at));
    assert(chain_link(states, n, now, attestor, ids[n], slice_id, value, expires_at));
    assert(states[n + 1] == states.last());
}

/// A type with a recorded parent is listed among that parent's children,
/// once, and among no other type's children; a type without one is listed
/// nowhere.
pub proof fn lemma_type_listed_once_under_its_parent(c: QuorumProofContract, type_id: u32, k: u32)
    requires
        c.wf(),
    ensures
        list_at32(c.registry.children@, k).contains(type_id)
            <==> c.registry.parents@.contains_key(type_id) && c.registry.parents@[type_id] == k,
        list_at32(c.registry.children@, k).no_duplicates(),
{
}

/// A batch attestation that succeeds attests each of its credentials
/// once: none of them repeats, none was attested by the attestor before,
/// each is attested by it afterwards, what the attestor had attested stays
/// attested, and the attestor's count grows by the number of credentials.
pub proof fn lemma_batch_attest_counts(
    start: QuorumProofContract,
    end: QuorumProofContract,
    now: u64,
    attestor: Address,
    ids: Seq<u64>,
    slice_id: u64,
    value: bool,
    expires_at: Option<u64>,
)
    requires
        batch_succeeds(start, end, now, attestor, ids, slice_id, value, expires_at),
    ensures
        ids.no_duplicates(),
        count_at(end.holders.attestor_counts@, attestor.0)
            == count_at(start.holders.attestor_counts@, attestor.0) + ids.len(),
        forall|j: int| 0 <= j < ids.len() ==> !has_attested(start.records_of(#[trigger] ids[j]), attestor),
        forall|j: int| 0 <= j < ids.len() ==> has_attested(end.records_of(#[trigger] ids[j]), attestor),
        forall|c: u64| has_attested(start.records_of(c), attestor) ==> #[trigger] has_attested(end.records_of(c), attestor),
    decreases ids.len(),
{
    if ids.len() == 0 {
        let states = choose|states: Seq<QuorumProofContract>|
            #[trigger] attest_chain(states, now, attestor, ids, slice_id, value, expires_at)
                && same_contents(states[0], start)
                && same_contents(states.last(), end);
        assert(states.last() == states[0]);
        assert forall|c: u64| has_attested(start.records_of(c), attestor) implies #[trigger] has_attested(end.records_of(c), attestor) by {
            assert(start.records_of(c) == end.records_of(c));
        }
    } else {
        lemma_batch_attest_in_order(start, end, now, attestor, ids, slice_id, value, expires_at);
        let init = ids.drop_last();
        let last = ids.last();
        let mid = choose|mid: QuorumProofContract|
            #[trigger] batch_succeeds(start, mid, now, attestor, init, slice_id, value, expires_at)
                && mid.attest_item_failure(now, attestor, last, slice_id, value) is None
                && attest_effect(mid, end, now, attestor, last, slice_id, value, expires_at);
        lemma_batch_attest_counts(start, mid, now, attestor, init, slice_id, value, expires_at);
        let rec = new_record(attestor, now, expires_at, value);
        assert(mid.attest_record_failure(now, attestor, last, slice_id, value) is None);
        assert(!has_attested(mid.records_of(last), attestor));
        assert forall|c: u64| has_attested(mid.records_of(c), attestor) implies #[trigger] has_attested(end.records_of(c), attestor) by {
            let r = mid.records_of(c);
            let i = choose|i: int| 0 <= i < r.len() && #[trigger] r[i].attestor == attestor;
            if c == last {
                assert(end.records_of(c) == r.push(rec));
                assert(r.push(rec)[i].attestor == attestor);
            } else {
                assert(mid.attestations@.remove(last).contains_key(c) == end.attestations@.remove(last).contains_key(c));
                if mid.attestations@.contains_key(c) {
                    assert(mid.attestations@.remove(last)[c] == end.attestations@.remove(last)[c]);
                }
                assert(end.records_of(c) == r);
            }
        }
        assert(has_attested(end.records_of(last), attestor)) by {
            let r = mid.records_of(last);
            assert(end.records_of(last) == r.push(rec));
            assert(r.push(rec)[r.len() as int].attestor == attestor);
        }
        assert forall|j: int| 0 <= j < ids.len() implies has_attested(end.records_of(#[trigger] ids[j]), attestor) by {
            if j < init.len() {
                assert(init[j] == ids[j]);
                assert(has_attested(mid.records_of(init[j]), attestor));
            }
        }
        assert forall|j: int| 0 <= j < ids.len() implies !has_attested(start.records_of(#[trigger] ids[j]), attestor) by {
            if j < init.len() {
                assert(init[j] == ids[j]);
            } else if has_attested(start.records_of(last), attestor) {
                assert(has_attested(mid.records_of(last), attestor));
            }
        }
        assert forall|i: int, j: int| 0 <= i < ids.len() && 0 <= j < ids.len() && i != j implies ids[i] != ids[j] by {
            if i < init.len() && j < init.len() {
                assert(init[i] == ids[i] && init[j] == ids[j]);
            } else if i < init.len() {
                assert(init[i] == ids[i]);
                assert(has_attested(mid.records_of(init[i]), attestor));
            } else {
                assert(init[j] == ids[j]);
                assert(has_attested(mid.records_of(init[j]), attestor));
            }
        }
        assert(count_at(mid.holders.attestor_counts@, attestor.0) < u64::MAX);
    }
}

/// Searching and counting credentials apply every filter given: each id
/// listed names a stored credential with the subject, issuer and type asked
/// for, every stored credential that has them is listed, and a page holds
/// only listed ids.
pub proof fn lemma_search_applies_filters(
    c: QuorumProofContract,
    subject: Option<Address>,
    issuer: Option<Address>,
    credential_type: Option<u32>,
    page: u32,
    page_size: u32,
)
    requires
        c.wf(),
    ensures
        forall|id: u64| #[trigger] matching_ids(c.credentials@, subject, issuer, credential_type).contains(id) ==> {
            &&& 1 <= id <= c.credentials.len()
            &&& (subject matches Some(s) ==> c.credentials@[id - 1].subject == s)
            &&& (issuer matches Some(i) ==> c.credentials@[id - 1].issuer == i)
            &&& (credential_type matches Some(t) ==> c.credentials@[id - 1].credential_type == t)
        },
        forall|id: u64| 1 <= id <= c.credentials.len()
            && (subject matches Some(s) ==> c.credentials@[id - 1].subject == s)
            && (issuer matches Some(i) ==> c.credentials@[id - 1].issuer == i)
            && (credential_type matches Some(t) ==> c.credentials@[id - 1].credential_type == t)
            ==> #[trigger] matching_ids(c.credentials@, subject, issuer, credential_type).contains(id),
        page >= 1 ==> forall|id: u64| #[trigger] page_of(matching_ids(c.credentials@, subject, issuer, credential_type), page, page_size).contains(id)
            ==> matching_ids(c.credentials@, subject, issuer, credential_type).contains(id),
{
    let m = matching_ids(c.credentials@, subject, issuer, credential_type);
    lemma_matching_ids_ascending(c.credentials@, subject, issuer, credential_type);
    if page >= 1 {
        let start = sat_mul32(page - 1, page_size as int);
        assert(start >= 0) by (nonlinear_arith)
            requires start == sat_mul32(page - 1, page_size as int), page >= 1;
        assert forall|id: u64| #[trigger] page_of(m, page, page_size).contains(id) implies m.contains(id) by {
            let p = page_of(m, page, page_size);
            let k = choose|k: int| 0 <= k < p.len() && p[k] == id;
            let end = if start + page_size <= u32::MAX { start + page_size } else { u32::MAX as int };
            let lo = if start <= m.len() { start } else { m.len() as int };
            assert(m[lo + k] == id);
        }
    }
}

/// The records of an attestor suspended in the slice carry no weight: two
/// states that differ only in that one of them lacks those records on the
/// credential give the same `is_attested` answer.
pub proof fn lemma_suspended_attestor_carries_no_weight(
    a: QuorumProofContract,
    b: QuorumProofContract,
    now: u64,
    cred: u64,
    slice_id: u64,
    x: Address,
)
    requires
        a.slice_data.suspended@.contains_key(pair_key(slice_id, x.0)),
        a.slice_data.suspended@[pair_key(slice_id, x.0)],
        b.records_of(cred) == records_without(a.records_of(cred), x),
        b.attestations@.remove(cred) == a.attestations@.remove(cred),
        b.credentials == a.credentials,
        b.slices == a.slices,
        b.slice_data == a.slice_data,
        b.cred_data == a.cred_data,
        b.caches == a.caches,
    ensures
        b.is_attested_outcome(now, cred, slice_id) == a.is_attested_outcome(now, cred, slice_id),
{
    let r = a.records_of(cred);
    lemma_suspended_records_weightless(a.slice_at(slice_id), a.slice_data.suspended@, slice_id, now, r, x);
}

/// The weights of attestations made by a suspended member sum to nothing.
proof fn lemma_suspended_records_weightless(
    slice: QuorumSlice,
    suspended: Map<u128, bool>,
    slice_id: u64,
    now: u64,
    r: Seq<AttestationRecord>,
    x: Address,
)
    requires
        suspended.contains_key(pair_key(slice_id, x.0)),
        suspended[pair_key(slice_id, x.0)],
    ensures
        attested_weight_sum(slice, suspended, slice_id, true, now, records_without(r, x))
            == attested_weight_sum(slice, suspended, slice_id, true, now, r),
    decreases r.len(),
{
    if r.len() > 0 {
        lemma_suspended_records_weightless(slice, suspended, slice_id, now, r.drop_last(), x);
        let rest = records_without(r.drop_last(), x);
        if r.last().attestor != x {
            assert(records_without(r, x).drop_last() == rest);
            assert(records_without(r, x).last() == r.last());
        }
    }
}

/// The tally of a list of voters adds up their weights in the slice with
/// saturation: no voters weigh nothing, a voter outside the slice adds
/// nothing, and a member adds the weight at its first position, the sum
/// capped at `u32::MAX`.
pub proof fn lemma_tally_adds_voter_weight(slice: QuorumSlice, votes: Seq<Address>, v: Address, i: int)
    ensures
        votes_weight(slice, Seq::<Address>::empty()) == 0,
        !slice.attestors@.contains(v) ==> votes_weight(slice, votes.push(v)) == votes_weight(slice, votes),
        0 <= i < slice.attestors.len() && i < slice.weights.len() && slice.attestors@[i] == v
            && (forall|j: int| 0 <= j < i ==> slice.attestors@[j] != v)
            ==> votes_weight(slice, votes.push(v)) == (if votes_weight(slice, votes) + slice.weights@[i] <= u32::MAX {
                votes_weight(slice, votes) + slice.weights@[i]
            } else {
                u32::MAX as int
            }),
{
    assert(votes.push(v).drop_last() == votes);
    lemma_votes_weight_sum_nonneg(slice, votes);
    if 0 <= i < slice.attestors.len() && i < slice.weights.len() && slice.attestors@[i] == v
        && (forall|j: int| 0 <= j < i ==> slice.attestors@[j] != v) {
        lemma_first_index(slice.attestors@, v, i);
        assert(member_weight(slice, v) == slice.weights@[i]);
    }
}

/// The success rate a reputation reports is the whole percentage of
/// successful verifications, rounded down: `rate * total <= successful *
/// 100 < (rate + 1) * total`, where the product fits in a u64; it is 0 when
/// there were no verifications; the successful ones never outnumber all,
/// which are the successful and the failed ones together where that fits.
pub proof fn lemma_success_rate_is_floor_percentage(c: QuorumProofContract, now: u64, holder: Address)
    ensures
        reputation_of(c, now, holder).successful_verifications <= reputation_of(c, now, holder).total_verifications,
        reputation_of(c, now, holder).total_verifications == 0 ==> reputation_of(c, now, holder).verification_success_rate == 0,
        reputation_of(c, now, holder).successful_verifications + reputation_of(c, now, holder).failed_verifications <= u64::MAX
            ==> reputation_of(c, now, holder).total_verifications
                == reputation_of(c, now, holder).successful_verifications + reputation_of(c, now, holder).failed_verifications,
        ({
            let rep = reputation_of(c, now, holder);
            let (rate, ok, total) = (rep.verification_success_rate as int, rep.successful_verifications as int,
                rep.total_verifications as int);
            total > 0 && ok * 100 <= u64::MAX ==> rate * total <= ok * 100 && ok * 100 < (rate + 1) * total
        }),
{
    let rep = reputation_of(c, now, holder);
    let (ok, total) = (rep.successful_verifications as int, rep.total_verifications as int);
    if total > 0 && ok * 100 <= u64::MAX {
        let x = ok * 100;
        let q = x / total;
        assert(x == total * q + x % total && 0 <= x % total < total) by {
            lemma_fundamental_div_mod(x, total);
            lemma_mod_bound(x, total);
        }
        assert(0 <= q <= x) by {
            lemma_div_pos_is_pos(x, total);
            lemma_div_is_ordered_by_denominator(x, 1, total);
        }
        assert(rep.verification_success_rate == q);
        assert(q * total <= x && x < (q + 1) * total) by (nonlinear_arith)
            requires x == total * q + x % total, 0 <= x % total < total;
    }
}

/// One more attestation record on a credential changes the weight that
/// `is_attested` weighs as follows: a record that has expired, whose
/// attestor is not in the slice, or whose attestor is suspended there adds
/// nothing; any other adds the weight at its attestor's first position in
/// the slice, the sum capped at `u32::MAX`.
pub proof fn lemma_record_adds_member_weight(
    a: QuorumProofContract,
    b: QuorumProofContract,
    now: u64,
    cred: u64,
    slice_id: u64,
    rec: AttestationRecord,
    i: int,
)
    requires
        b.records_of(cred) == a.records_of(cred).push(rec),
        b.slices == a.slices,
        b.slice_data == a.slice_data,
    ensures
        (rec.expires_at matches Some(e) && now >= e)
            || !a.slice_at(slice_id).attestors@.contains(rec.attestor)
            || (a.slice_data.suspended@.contains_key(pair_key(slice_id, rec.attestor.0))
                && a.slice_data.suspended@[pair_key(slice_id, rec.attestor.0)])
            ==> b.attested_weight_in(now, cred, slice_id) == a.attested_weight_in(now, cred, slice_id),
        ({
            let sl = a.slice_at(slice_id);
            &&& !(rec.expires_at matches Some(e) && now >= e)
            &&& !(a.slice_data.suspended@.contains_key(pair_key(slice_id, rec.attestor.0))
                && a.slice_data.suspended@[pair_key(slice_id, rec.attestor.0)])
            &&& 0 <= i < sl.attestors.len() && i < sl.weights.len() && sl.attestors@[i] == rec.attestor
            &&& forall|j: int| 0 <= j < i ==> sl.attestors@[j] != rec.attestor
        }) ==> b.attested_weight_in(now, cred, slice_id) == (if a.attested_weight_in(now, cred, slice_id)
            + a.slice_at(slice_id).weights@[i] <= u32::MAX {
            a.attested_weight_in(now, cred, slice_id) + a.slice_at(slice_id).weights@[i]
        } else {
            u32::MAX as int
        }),
{
    let sl = a.slice_at(slice_id);
    let susp = a.slice_data.suspended@;
    let r = a.records_of(cred);
    assert(r.push(rec).drop_last() == r);
    lemma_weight_sum_nonneg(sl, susp, slice_id, true, now, r);
    if 0 <= i < sl.attestors.len() && i < sl.weights.len() && sl.attestors@[i] == rec.attestor
        && (forall|j: int| 0 <= j < i ==> sl.attestors@[j] != rec.attestor) {
        lemma_first_index(sl.attestors@, rec.attestor, i);
        assert(member_weight(sl, rec.attestor) == sl.weights@[i]);
    }
}

/// A live credential's `is_attested` answer, when it gives one, is whether
/// the attested weight reaches the slice's threshold; a weight equal to the
/// threshold suffices.
pub proof fn lemma_attested_iff_threshold_reached(a: QuorumProofContract, now: u64, cred: u64, slice_id: u64)
    requires
        a.has_credential(cred),
        !a.credential_lapsed(now, cred),
        a.has_slice(slice_id),
        a.is_attested_outcome(now, cred, slice_id) is Ok,
    ensures
        a.is_attested_outcome(now, cred, slice_id) == Ok::<bool, Fault>(
            a.attested_weight_in(now, cred, slice_id) >= a.slice_at(slice_id).threshold as int),
{
}

/// Page `page` (from 1) of `page_size` entries, where the page's end fits
/// in a u32, is the part of the list from `(page - 1) * page_size` to
/// `page * page_size`, both cut at the end of the list.
pub proof fn lemma_page_bounds<T>(s: Seq<T>, page: u32, page_size: u32)
    requires
        page >= 1,
        page as int * page_size as int <= u32::MAX,
    ensures
        page_of(s, page, page_size) == s.subrange(
            if (page - 1) * page_size <= s.len() { (page - 1) * page_size } else { s.len() as int },
            if page * page_size <= s.len() { page * page_size } else { s.len() as int },
        ),
{
    assert((page - 1) * page_size + page_size == page * page_size) by (nonlinear_arith);
    assert(0 <= (page - 1) * page_size <= page * page_size) by (nonlinear_arith)
        requires page >= 1;
}

} // verus!
