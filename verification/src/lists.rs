use vstd::prelude::*;
use crate::errors::{Abort, Fault};
use crate::types::{Address, ActivityRecord};

verus! {

/// The list without any occurrence of `id`, order kept.
pub open spec fn without_id(s: Seq<u64>, id: u64) -> Seq<u64>
    decreases s.len(),
{
    if s.len() == 0 {
        s
    } else if s.last() == id {
        without_id(s.drop_last(), id)
    } else {
        without_id(s.drop_last(), id).push(s.last())
    }
}

/// The list without any occurrence of `a`, order kept.
pub open spec fn without_address(s: Seq<Address>, a: Address) -> Seq<Address>
    decreases s.len(),
{
    if s.len() == 0 {
        s
    } else if s.last() == a {
        without_address(s.drop_last(), a)
    } else {
        without_address(s.drop_last(), a).push(s.last())
    }
}

/// Filtering `a` out keeps exactly the other addresses, and keeps a list
/// without repeats without repeats.
pub proof fn lemma_without_address_contents(s: Seq<Address>, a: Address)
    ensures
        forall|x: Address| #[trigger] without_address(s, a).contains(x) <==> s.contains(x) && x != a,
        s.no_duplicates() ==> without_address(s, a).no_duplicates(),
    decreases s.len(),
{
    if s.len() > 0 {
        let init = s.drop_last();
        lemma_without_address_contents(init, a);
        let rest = without_address(init, a);
        assert forall|x: Address| #[trigger] without_address(s, a).contains(x) <==> s.contains(x) && x != a by {
            if s.contains(x) && x != a {
                let i = choose|i: int| 0 <= i < s.len() && s[i] == x;
                if i < s.len() - 1 {
                    assert(init[i] == x);
                    assert(init.contains(x));
                }
            }
            if init.contains(x) {
                let i = choose|i: int| 0 <= i < init.len() && init[i] == x;
                assert(s[i] == x);
            }
            if s.last() != a {
                assert(without_address(s, a) == rest.push(s.last()));
                if rest.contains(x) {
                    let j = choose|j: int| 0 <= j < rest.len() && rest[j] == x;
                    assert(rest.push(s.last())[j] == x);
                }
                if x == s.last() {
                    assert(rest.push(s.last())[rest.len() as int] == x);
                }
                if rest.push(s.last()).contains(x) && x != s.last() {
                    let j = choose|j: int| 0 <= j < rest.len() + 1 && rest.push(s.last())[j] == x;
                    assert(rest[j] == x);
                }
            }
        }
        if s.no_duplicates() {
            assert(init.no_duplicates()) by {
                assert forall|i: int, j: int| 0 <= i < init.len() && 0 <= j < init.len() && i != j implies init[i] != init[j] by {
                    assert(init[i] == s[i] && init[j] == s[j]);
                }
            }
            if s.last() != a {
                let r = rest.push(s.last());
                assert(!init.contains(s.last())) by {
                    if init.contains(s.last()) {
                        let i = choose|i: int| 0 <= i < init.len() && init[i] == s.last();
                        assert(s[i] == s[s.len() - 1]);
                    }
                }
                assert(!rest.contains(s.last()));
                assert forall|i: int, j: int| 0 <= i < r.len() && 0 <= j < r.len() && i != j implies r[i] != r[j] by {
                    if i < rest.len() && j < rest.len() {
                        assert(r[i] == rest[i] && r[j] == rest[j]);
                    } else if i < rest.len() {
                        assert(r[i] == rest[i]);
                        assert(rest.contains(rest[i]));
                    } else if j < rest.len() {
                        assert(r[j] == rest[j]);
                        assert(rest.contains(rest[j]));
                    }
                }
            }
        }
    }
}

/// Seconds in the retention period of holder activity.
pub const ONE_YEAR_SECONDS: u64 = 365 * 24 * 60 * 60;

/// The activity records younger than a year at `now`, order kept.
pub open spec fn retained_activity(s: Seq<ActivityRecord>, now: u64) -> Seq<ActivityRecord>
    decreases s.len(),
{
    if s.len() == 0 {
        s
    } else if now - s.last().timestamp < ONE_YEAR_SECONDS {
        retained_activity(s.drop_last(), now).push(s.last())
    } else {
        retained_activity(s.drop_last(), now)
    }
}

/// No record is dated after `now`.
pub open spec fn none_after(s: Seq<ActivityRecord>, now: u64) -> bool {
    forall|i: int| 0 <= i < s.len() ==> #[trigger] s[i].timestamp <= now
}

/// Removing an element keeps every other element and adds none.
pub proof fn lemma_without_id_contains(s: Seq<u64>, id: u64, x: u64)
    ensures
        without_id(s, id).contains(x) <==> (s.contains(x) && x != id),
    decreases s.len(),
{
    if s.len() > 0 {
        lemma_without_id_contains(s.drop_last(), id, x);
        assert forall|y: u64| s.contains(y) <==> (s.drop_last().contains(y) || s.last() == y) by {
            if s.contains(y) {
                let k = choose|k: int| 0 <= k < s.len() && s[k] == y;
                if k < s.len() - 1 {
                    assert(s.drop_last()[k] == y);
                }
            }
            if s.drop_last().contains(y) {
                let k = choose|k: int| 0 <= k < s.drop_last().len() && s.drop_last()[k] == y;
                assert(s[k] == y);
            }
            if s.last() == y {
                assert(s[s.len() - 1] == y);
            }
        }
        let r = without_id(s.drop_last(), id);
        if s.last() != id {
            assert forall|y: u64| r.push(s.last()).contains(y) <==> (r.contains(y) || y == s.last()) by {
                if r.push(s.last()).contains(y) {
                    let k = choose|k: int| 0 <= k < r.push(s.last()).len() && r.push(s.last())[k] == y;
                    if k < r.len() {
                        assert(r[k] == y);
                    }
                }
                if r.contains(y) {
                    let k = choose|k: int| 0 <= k < r.len() && r[k] == y;
                    assert(r.push(s.last())[k] == y);
                }
                if y == s.last() {
                    assert(r.push(s.last())[r.len() as int] == y);
                }
            }
        }
    }
}

/// Filters `id` out of a list.
pub fn remove_id(s: &Vec<u64>, id: u64) -> (r: Vec<u64>)
    ensures
        r@ == without_id(s@, id),
{
    let mut r: Vec<u64> = Vec::new();
    let mut i: usize = 0;
    while i < s.len()
        invariant
            i <= s.len(),
            r@ == without_id(s@.take(i as int), id),
        decreases s.len() - i,
    {
        assert(s@.take(i as int + 1).drop_last() =~= s@.take(i as int));
        if s[i] != id {
            r.push(s[i]);
        }
        i += 1;
    }
    assert(s@.take(s.len() as int) =~= s@);
    r
}

/// Filters `a` out of a list.
pub fn remove_address(s: &Vec<Address>, a: Address) -> (r: Vec<Address>)
    ensures
        r@ == without_address(s@, a),
{
    let mut r: Vec<Address> = Vec::new();
    let mut i: usize = 0;
    while i < s.len()
        invariant
            i <= s.len(),
            r@ == without_address(s@.take(i as int), a),
        decreases s.len() - i,
    {
        assert(s@.take(i as int + 1).drop_last() =~= s@.take(i as int));
        if s[i] != a {
            r.push(s[i]);
        }
        i += 1;
    }
    assert(s@.take(s.len() as int) =~= s@);
    r
}

/// Keeps the records younger than a year at `now`; a record dated after
/// `now` stops the computation as an arithmetic overflow.
pub fn retain_recent(s: &Vec<ActivityRecord>, now: u64) -> (r: Result<Vec<ActivityRecord>, Fault>)
    ensures
        none_after(s@, now) ==> (r matches Ok(v) && v@ == retained_activity(s@, now)),
        !none_after(s@, now) ==> r == Err::<Vec<ActivityRecord>, Fault>(Fault::Abort(Abort::ArithmeticOverflow)),
{
    let mut r: Vec<ActivityRecord> = Vec::new();
    let mut i: usize = 0;
    while i < s.len()
        invariant
            i <= s.len(),
            none_after(s@.take(i as int), now),
            r@ == retained_activity(s@.take(i as int), now),
        decreases s.len() - i,
    {
        if s[i].timestamp > now {
            return Err(Fault::Abort(Abort::ArithmeticOverflow));
        }
        assert(s@.take(i as int + 1).drop_last() =~= s@.take(i as int));
        if now - s[i].timestamp < ONE_YEAR_SECONDS {
            r.push(s[i]);
        }
        i += 1;
        assert(none_after(s@.take(i as int), now)) by {
            assert forall|k: int| 0 <= k < i implies #[trigger] s@.take(i as int)[k].timestamp <= now by {
                if k < i - 1 {
                    assert(s@.take(i as int)[k] == s@.take(i - 1)[k]);
                }
            }
        }
    }
    assert(s@.take(s.len() as int) =~= s@);
    Ok(r)
}

} // verus!
