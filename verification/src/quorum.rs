use vstd::prelude::*;
use std::collections::HashMap;
use crate::state::{pack_pair, pair_key};
use crate::types::{Address, AttestationRecord, QuorumSlice};

verus! {

broadcast use vstd::std_specs::hash::group_hash_axioms;

/// `i` is the first position of `a` in `s`.
pub open spec fn is_first_index(s: Seq<Address>, a: Address, i: int) -> bool {
    &&& 0 <= i < s.len()
    &&& s[i] == a
    &&& forall|k: int| 0 <= k < i ==> s[k] != a
}

/// The first position of `a` in `s`, or -1 when `a` is not in `s`.
pub open spec fn first_index(s: Seq<Address>, a: Address) -> int {
    if s.contains(a) {
        choose|i: int| is_first_index(s, a, i)
    } else {
        -1
    }
}

/// The first position of an element is unique, so `first_index` names it.
pub proof fn lemma_first_index(s: Seq<Address>, a: Address, i: int)
    requires
        is_first_index(s, a, i),
    ensures
        first_index(s, a) == i,
        s.contains(a),
{
    assert(s.contains(a)) by {
        assert(s[i] == a);
    }
    let j = choose|j: int| is_first_index(s, a, j);
    assert(is_first_index(s, a, j));
    if j < i {
        assert(s[j] != a);
    } else if i < j {
        assert(s[i] != a);
    }
}

/// The weight stored at position `i`, 0 past the end of the weights.
pub open spec fn weight_at(weights: Seq<u32>, i: int) -> int {
    if 0 <= i < weights.len() {
        weights[i] as int
    } else {
        0
    }
}

/// The weight of `a` in a slice: the weight at its first position, 0 if absent.
pub open spec fn member_weight(slice: QuorumSlice, a: Address) -> int {
    if slice.attestors@.contains(a) {
        weight_at(slice.weights@, first_index(slice.attestors@, a))
    } else {
        0
    }
}

/// Whether the attestor is suspended in the slice.
pub open spec fn is_suspended_in(suspended: Map<u128, bool>, slice_id: u64, a: Address) -> bool {
    suspended.contains_key(pair_key(slice_id, a.0)) && suspended[pair_key(slice_id, a.0)]
}

/// An attestation record has expired at `now` when its expiry has passed.
pub open spec fn record_expired(rec: AttestationRecord, now: u64) -> bool {
    match rec.expires_at {
        Some(e) => now >= e,
        None => false,
    }
}

/// What one record adds to the attested weight: nothing if it has expired,
/// if its attestor is not in the slice, or (when suspensions count) if its
/// attestor is suspended in the slice; otherwise its attestor's weight.
pub open spec fn record_weight(
    slice: QuorumSlice,
    suspended: Map<u128, bool>,
    slice_id: u64,
    skip_suspended: bool,
    now: u64,
    rec: AttestationRecord,
) -> int {
    if record_expired(rec, now) {
        0
    } else if !slice.attestors@.contains(rec.attestor) {
        0
    } else if skip_suspended && is_suspended_in(suspended, slice_id, rec.attestor) {
        0
    } else {
        member_weight(slice, rec.attestor)
    }
}

/// The total weight the records add, without any cap.
pub open spec fn attested_weight_sum(
    slice: QuorumSlice,
    suspended: Map<u128, bool>,
    slice_id: u64,
    skip_suspended: bool,
    now: u64,
    records: Seq<AttestationRecord>,
) -> int
    decreases records.len(),
{
    if records.len() == 0 {
        0
    } else {
        attested_weight_sum(slice, suspended, slice_id, skip_suspended, now, records.drop_last())
            + record_weight(slice, suspended, slice_id, skip_suspended, now, records.last())
    }
}

/// `x` capped at `u32::MAX`.
pub open spec fn cap_u32(x: int) -> int {
    if x <= u32::MAX { x } else { u32::MAX as int }
}

/// The attested weight, capped at `u32::MAX` as the saturating sum is.
pub open spec fn attested_weight(
    slice: QuorumSlice,
    suspended: Map<u128, bool>,
    slice_id: u64,
    skip_suspended: bool,
    now: u64,
    records: Seq<AttestationRecord>,
) -> int {
    cap_u32(attested_weight_sum(slice, suspended, slice_id, skip_suspended, now, records))
}

/// The sum of all weights of a slice, without any cap.
pub open spec fn weight_total(weights: Seq<u32>) -> int
    decreases weights.len(),
{
    if weights.len() == 0 {
        0
    } else {
        weight_total(weights.drop_last()) + weights.last() as int
    }
}

proof fn lemma_record_weight_nonneg(
    slice: QuorumSlice,
    suspended: Map<u128, bool>,
    slice_id: u64,
    skip_suspended: bool,
    now: u64,
    rec: AttestationRecord,
)
    ensures
        0 <= record_weight(slice, suspended, slice_id, skip_suspended, now, rec) <= u32::MAX,
{
}

/// The position of `a` in `s`, searching from the front.
pub fn find_address(s: &Vec<Address>, a: Address) -> (r: Option<usize>)
    ensures
        match r {
            Some(i) => is_first_index(s@, a, i as int),
            None => !s@.contains(a),
        },
{
    let mut i: usize = 0;
    while i < s.len()
        invariant
            i <= s.len(),
            forall|k: int| 0 <= k < i ==> s@[k] != a,
        decreases s.len() - i,
    {
        if s[i] == a {
            return Some(i);
        }
        i += 1;
    }
    None
}

/// Whether `a` is in `s`.
pub fn contains_address(s: &Vec<Address>, a: Address) -> (r: bool)
    ensures
        r == s@.contains(a),
{
    match find_address(s, a) {
        Some(i) => {
            proof { lemma_first_index(s@, a, i as int); }
            true
        },
        None => false,
    }
}

/// The weight of `a` in the slice.
pub fn weight_of(slice: &QuorumSlice, a: Address) -> (w: u32)
    ensures
        w == member_weight(*slice, a),
{
    match find_address(&slice.attestors, a) {
        Some(i) => {
            proof { lemma_first_index(slice.attestors@, a, i as int); }
            if i < slice.weights.len() {
                slice.weights[i]
            } else {
                0
            }
        },
        None => 0,
    }
}

/// Whether the attestor is suspended in the slice.
pub fn suspended_in(suspended: &HashMap<u128, bool>, slice_id: u64, a: Address) -> (r: bool)
    ensures
        r == is_suspended_in(suspended@, slice_id, a),
{
    match suspended.get(&pack_pair(slice_id, a.0)) {
        Some(b) => *b,
        None => false,
    }
}

/// The weight the records attest in the slice, summed with saturation.
pub fn compute_attested_weight(
    slice: &QuorumSlice,
    suspended: &HashMap<u128, bool>,
    slice_id: u64,
    skip_suspended: bool,
    now: u64,
    records: &Vec<AttestationRecord>,
) -> (w: u32)
    ensures
        w == attested_weight(*slice, suspended@, slice_id, skip_suspended, now, records@),
{
    let mut total: u32 = 0;
    let mut i: usize = 0;
    while i < records.len()
        invariant
            i <= records.len(),
            total == cap_u32(attested_weight_sum(*slice, suspended@, slice_id, skip_suspended, now, records@.take(i as int))),
        decreases records.len() - i,
    {
        let rec = &records[i];
        let expired = match rec.expires_at {
            Some(e) => now >= e,
            None => false,
        };
        let mut add: u32 = 0;
        if !expired {
            match find_address(&slice.attestors, rec.attestor) {
                Some(k) => {
                    proof { lemma_first_index(slice.attestors@, rec.attestor, k as int); }
                    if skip_suspended && suspended_in(suspended, slice_id, rec.attestor) {
                        add = 0;
                    } else {
                        add = if k < slice.weights.len() { slice.weights[k] } else { 0 };
                    }
                },
                None => {},
            }
        }
        proof {
            let prefix = records@.take(i as int + 1);
            assert(prefix.drop_last() =~= records@.take(i as int));
            assert(prefix.last() == records@[i as int]);
            assert(add == record_weight(*slice, suspended@, slice_id, skip_suspended, now, records@[i as int]));
            lemma_record_weight_nonneg(*slice, suspended@, slice_id, skip_suspended, now, records@[i as int]);
            assert(attested_weight_sum(*slice, suspended@, slice_id, skip_suspended, now, records@.take(i as int)) >= 0)
                by { lemma_weight_sum_nonneg(*slice, suspended@, slice_id, skip_suspended, now, records@.take(i as int)); }
        }
        total = total.saturating_add(add);
        i += 1;
    }
    assert(records@.take(records.len() as int) =~= records@);
    total
}

pub proof fn lemma_weight_sum_nonneg(
    slice: QuorumSlice,
    suspended: Map<u128, bool>,
    slice_id: u64,
    skip_suspended: bool,
    now: u64,
    records: Seq<AttestationRecord>,
)
    ensures
        attested_weight_sum(slice, suspended, slice_id, skip_suspended, now, records) >= 0,
    decreases records.len(),
{
    if records.len() > 0 {
        lemma_weight_sum_nonneg(slice, suspended, slice_id, skip_suspended, now, records.drop_last());
        lemma_record_weight_nonneg(slice, suspended, slice_id, skip_suspended, now, records.last());
    }
}

/// The sum of the weights, saturating at `u32::MAX`.
pub fn total_weight(weights: &Vec<u32>) -> (t: u32)
    ensures
        t == cap_u32(weight_total(weights@)),
{
    let mut total: u32 = 0;
    let mut i: usize = 0;
    while i < weights.len()
        invariant
            i <= weights.len(),
            total == cap_u32(weight_total(weights@.take(i as int))),
        decreases weights.len() - i,
    {
        proof {
            assert(weights@.take(i as int + 1).drop_last() =~= weights@.take(i as int));
            lemma_weight_total_nonneg(weights@.take(i as int));
        }
        total = total.saturating_add(weights[i]);
        i += 1;
    }
    assert(weights@.take(weights.len() as int) =~= weights@);
    total
}

/// A sum of weights is never negative.
pub proof fn lemma_weight_total_nonneg(weights: Seq<u32>)
    ensures
        weight_total(weights) >= 0,
    decreases weights.len(),
{
    if weights.len() > 0 {
        lemma_weight_total_nonneg(weights.drop_last());
    }
}

/// Whether any record's attestor is in the slice with a value other than `new_value`.
pub open spec fn conflicting_record_exists(slice: QuorumSlice, records: Seq<AttestationRecord>, new_value: bool) -> bool {
    exists|i: int| 0 <= i < records.len()
        && slice.attestors@.contains(#[trigger] records[i].attestor)
        && records[i].attestation_value != new_value
}

/// A fork: the new attestor belongs to the slice and some slice member has
/// already attested the other value.
pub open spec fn fork_spec(slice: QuorumSlice, records: Seq<AttestationRecord>, new_attestor: Address, new_value: bool) -> bool {
    slice.attestors@.contains(new_attestor) && conflicting_record_exists(slice, records, new_value)
}

/// Decides `fork_spec`.
pub fn fork_detected(slice: &QuorumSlice, records: &Vec<AttestationRecord>, new_attestor: Address, new_value: bool) -> (r: bool)
    ensures
        r == fork_spec(*slice, records@, new_attestor, new_value),
{
    if !contains_address(&slice.attestors, new_attestor) {
        return false;
    }
    let mut i: usize = 0;
    while i < records.len()
        invariant
            i <= records.len(),
            slice.attestors@.contains(new_attestor),
            forall|k: int| 0 <= k < i ==> !(slice.attestors@.contains(#[trigger] records@[k].attestor)
                && records@[k].attestation_value != new_value),
        decreases records.len() - i,
    {
        if contains_address(&slice.attestors, records[i].attestor) && records[i].attestation_value != new_value {
            proof {
                let k = i as int;
                assert(slice.attestors@.contains(records@[k].attestor) && records@[k].attestation_value != new_value);
                assert(conflicting_record_exists(*slice, records@, new_value));
            }
            return true;
        }
        i += 1;
    }
    false
}

/// Whether any record was made by `a`.
pub open spec fn has_attested(records: Seq<AttestationRecord>, a: Address) -> bool {
    exists|i: int| 0 <= i < records.len() && #[trigger] records[i].attestor == a
}

/// Decides `has_attested`.
pub fn attested_by(records: &Vec<AttestationRecord>, a: Address) -> (r: bool)
    ensures
        r == has_attested(records@, a),
{
    let mut i: usize = 0;
    while i < records.len()
        invariant
            i <= records.len(),
            forall|k: int| 0 <= k < i ==> #[trigger] records@[k].attestor != a,
        decreases records.len() - i,
    {
        if records[i].attestor == a {
            return true;
        }
        i += 1;
    }
    false
}

} // verus!
