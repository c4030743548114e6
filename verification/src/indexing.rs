use vstd::prelude::*;
use crate::cred_ops::subject_moved;
use crate::lists::{lemma_without_id_contains, without_id};
use crate::state::Indexes;
use crate::store::{list_at, list_at32, only_key_set};
use crate::types::{Address, Credential};

verus! {

broadcast use vstd::seq_lib::lemma_seq_contains_after_push;

/// Credential `id` is stored, and its subject is the address numbered `s`.
pub open spec fn held_by(creds: Seq<Credential>, id: u64, s: u64) -> bool {
    1 <= id <= creds.len() && creds[id - 1].subject.0 == s
}

/// Credential `id` is stored, is of type `t` and is not revoked.
pub open spec fn live_of_type(creds: Seq<Credential>, id: u64, t: u32) -> bool {
    1 <= id <= creds.len() && creds[id - 1].credential_type == t && !creds[id - 1].revoked
}

/// A per-subject list lists exactly the subject's credentials that are not
/// revoked, each once.
pub open spec fn subject_lists_wf(creds: Seq<Credential>, m: Map<u64, Vec<u64>>) -> bool {
    &&& forall|s: u64, id: u64| #[trigger] list_at(m, s).contains(id) ==> held_by(creds, id, s) && !creds[id - 1].revoked
    &&& forall|i: int| 0 <= i < creds.len() && !(#[trigger] creds[i]).revoked
        ==> list_at(m, creds[i].subject.0).contains(creds[i].id)
    &&& forall|s: u64| #[trigger] list_at(m, s).no_duplicates()
}

/// The type index lists, under each type, exactly the credentials of that
/// type that are not revoked, each once.
pub open spec fn type_index_wf(creds: Seq<Credential>, m: Map<u32, Vec<u64>>) -> bool {
    &&& forall|t: u32, id: u64| #[trigger] list_at32(m, t).contains(id) ==> live_of_type(creds, id, t)
    &&& forall|i: int| 0 <= i < creds.len() && !(#[trigger] creds[i]).revoked
        ==> list_at32(m, creds[i].credential_type).contains(creds[i].id)
    &&& forall|t: u32| #[trigger] list_at32(m, t).no_duplicates()
}

/// The lookup lists agree with the stored credentials.
pub open spec fn indexes_wf(creds: Seq<Credential>, ix: Indexes) -> bool {
    &&& subject_lists_wf(creds, ix.subject_credentials@)
    &&& subject_lists_wf(creds, ix.subject_index@)
    &&& type_index_wf(creds, ix.type_index@)
}

/// Credentials are numbered from 1 in order.
pub open spec fn numbered(creds: Seq<Credential>) -> bool {
    forall|i: int| 0 <= i < creds.len() ==> #[trigger] creds[i].id == i + 1
}

/// Removing an id keeps a list free of repeats.
pub proof fn lemma_without_id_no_duplicates(s: Seq<u64>, id: u64)
    requires
        s.no_duplicates(),
    ensures
        without_id(s, id).no_duplicates(),
    decreases s.len(),
{
    if s.len() > 0 {
        let init = s.drop_last();
        assert(init.no_duplicates()) by {
            assert forall|i: int, j: int| 0 <= i < init.len() && 0 <= j < init.len() && i != j
                implies init[i] != init[j] by {
                assert(init[i] == s[i] && init[j] == s[j]);
            }
        }
        lemma_without_id_no_duplicates(init, id);
        if s.last() != id {
            let rest = without_id(init, id);
            lemma_without_id_contains(init, id, s.last());
            assert(!init.contains(s.last())) by {
                if init.contains(s.last()) {
                    let k = choose|k: int| 0 <= k < init.len() && init[k] == s.last();
                    assert(s[k] == s[s.len() - 1]);
                }
            }
            assert forall|i: int, j: int| 0 <= i < rest.push(s.last()).len() && 0 <= j < rest.push(s.last()).len() && i != j
                implies rest.push(s.last())[i] != rest.push(s.last())[j] by {
                if i == rest.len() {
                    assert(rest.contains(rest[j]));
                } else if j == rest.len() {
                    assert(rest.contains(rest[i]));
                }
            }
        }
    }
}

/// The lists of a map that changed only under `k`, where the list under
/// `k` lost `id`: every list holds what it held, but `id` under `k`.
pub proof fn lemma_dropped_membership(olds: Map<u64, Vec<u64>>, news: Map<u64, Vec<u64>>, k: u64, id: u64)
    requires
        list_at(news, k) == without_id(list_at(olds, k), id),
        only_key_set(olds, news, k),
    ensures
        forall|s: u64, x: u64| #[trigger] list_at(news, s).contains(x)
            <==> list_at(olds, s).contains(x) && !(s == k && x == id),
        forall|s: u64| s != k ==> #[trigger] list_at(news, s) == list_at(olds, s),
{
    assert forall|s: u64| s != k implies #[trigger] list_at(news, s) == list_at(olds, s) by {
        assert(news.remove(k).contains_key(s) == olds.remove(k).contains_key(s));
        if olds.contains_key(s) {
            assert(news.remove(k)[s] == olds.remove(k)[s]);
        }
    }
    assert forall|s: u64, x: u64| #[trigger] list_at(news, s).contains(x)
        <==> list_at(olds, s).contains(x) && !(s == k && x == id) by {
        if s == k {
            lemma_without_id_contains(list_at(olds, k), id, x);
        } else {
            assert(list_at(news, s) == list_at(olds, s));
        }
    }
}

/// The type-index form of `lemma_dropped_membership`.
pub proof fn lemma_dropped_membership32(olds: Map<u32, Vec<u64>>, news: Map<u32, Vec<u64>>, k: u32, id: u64)
    requires
        list_at32(news, k) == without_id(list_at32(olds, k), id),
        only_key_set(olds, news, k),
    ensures
        forall|s: u32, x: u64| #[trigger] list_at32(news, s).contains(x)
            <==> list_at32(olds, s).contains(x) && !(s == k && x == id),
        forall|s: u32| s != k ==> #[trigger] list_at32(news, s) == list_at32(olds, s),
{
    assert forall|s: u32| s != k implies #[trigger] list_at32(news, s) == list_at32(olds, s) by {
        assert(news.remove(k).contains_key(s) == olds.remove(k).contains_key(s));
        if olds.contains_key(s) {
            assert(news.remove(k)[s] == olds.remove(k)[s]);
        }
    }
    assert forall|s: u32, x: u64| #[trigger] list_at32(news, s).contains(x)
        <==> list_at32(olds, s).contains(x) && !(s == k && x == id) by {
        if s == k {
            lemma_without_id_contains(list_at32(olds, k), id, x);
        } else {
            assert(list_at32(news, s) == list_at32(olds, s));
        }
    }
}

/// The lists of a map that changed only under `k`, where the list under
/// `k` gained `id` at its end.
pub proof fn lemma_pushed_membership(olds: Map<u64, Vec<u64>>, news: Map<u64, Vec<u64>>, k: u64, id: u64)
    requires
        list_at(news, k) == list_at(olds, k).push(id),
        only_key_set(olds, news, k),
    ensures
        forall|s: u64, x: u64| #[trigger] list_at(news, s).contains(x)
            <==> list_at(olds, s).contains(x) || (s == k && x == id),
        forall|s: u64| s != k ==> #[trigger] list_at(news, s) == list_at(olds, s),
{
    assert forall|s: u64| s != k implies #[trigger] list_at(news, s) == list_at(olds, s) by {
        assert(news.remove(k).contains_key(s) == olds.remove(k).contains_key(s));
        if olds.contains_key(s) {
            assert(news.remove(k)[s] == olds.remove(k)[s]);
        }
    }
    assert forall|s: u64, x: u64| #[trigger] list_at(news, s).contains(x)
        <==> list_at(olds, s).contains(x) || (s == k && x == id) by {
        if s != k {
            assert(list_at(news, s) == list_at(olds, s));
        }
    }
}

/// The type-index form of `lemma_pushed_membership`.
pub proof fn lemma_pushed_membership32(olds: Map<u32, Vec<u64>>, news: Map<u32, Vec<u64>>, k: u32, id: u64)
    requires
        list_at32(news, k) == list_at32(olds, k).push(id),
        only_key_set(olds, news, k),
    ensures
        forall|s: u32, x: u64| #[trigger] list_at32(news, s).contains(x)
            <==> list_at32(olds, s).contains(x) || (s == k && x == id),
        forall|s: u32| s != k ==> #[trigger] list_at32(news, s) == list_at32(olds, s),
{
    assert forall|s: u32| s != k implies #[trigger] list_at32(news, s) == list_at32(olds, s) by {
        assert(news.remove(k).contains_key(s) == olds.remove(k).contains_key(s));
        if olds.contains_key(s) {
            assert(news.remove(k)[s] == olds.remove(k)[s]);
        }
    }
    assert forall|s: u32, x: u64| #[trigger] list_at32(news, s).contains(x)
        <==> list_at32(olds, s).contains(x) || (s == k && x == id) by {
        if s != k {
            assert(list_at32(news, s) == list_at32(olds, s));
        }
    }
}

/// A list with a new element at its end, not held before, has no repeats
/// when it had none.
proof fn lemma_push_no_duplicates(s: Seq<u64>, x: u64)
    requires
        s.no_duplicates(),
        !s.contains(x),
    ensures
        s.push(x).no_duplicates(),
{
    assert forall|i: int, j: int| 0 <= i < s.push(x).len() && 0 <= j < s.push(x).len() && i != j
        implies s.push(x)[i] != s.push(x)[j] by {
        if i == s.len() {
            assert(s.contains(s[j]));
        } else if j == s.len() {
            assert(s.contains(s[i]));
        }
    }
}

/// Storing credential `c` as the next one, listed at the end of its
/// subject's lists and its type's index, keeps the lists in agreement.
pub proof fn lemma_indexes_after_issue(c1: Seq<Credential>, ix1: Indexes, c2: Seq<Credential>, ix2: Indexes, c: Credential)
    requires
        numbered(c1),
        indexes_wf(c1, ix1),
        c2 == c1.push(c),
        c.id == c1.len() + 1,
        !c.revoked,
        list_at(ix2.subject_credentials@, c.subject.0) == list_at(ix1.subject_credentials@, c.subject.0).push(c.id),
        only_key_set(ix1.subject_credentials@, ix2.subject_credentials@, c.subject.0),
        list_at(ix2.subject_index@, c.subject.0) == list_at(ix1.subject_index@, c.subject.0).push(c.id),
        only_key_set(ix1.subject_index@, ix2.subject_index@, c.subject.0),
        list_at32(ix2.type_index@, c.credential_type) == list_at32(ix1.type_index@, c.credential_type).push(c.id),
        only_key_set(ix1.type_index@, ix2.type_index@, c.credential_type),
    ensures
        indexes_wf(c2, ix2),
{
    assert forall|i: int| 0 <= i < c1.len() implies #[trigger] c2[i] == c1[i] by {}
    lemma_subjects_after_issue(c1, ix1.subject_credentials@, c2, ix2.subject_credentials@, c);
    lemma_subjects_after_issue(c1, ix1.subject_index@, c2, ix2.subject_index@, c);
    let (o, n) = (ix1.type_index@, ix2.type_index@);
    let t = c.credential_type;
    lemma_pushed_membership32(o, n, t, c.id);
    assert(!list_at32(o, t).contains(c.id));
    lemma_push_no_duplicates(list_at32(o, t), c.id);
    assert forall|s: u32| #[trigger] list_at32(n, s).no_duplicates() by {
        if s != t {
            assert(list_at32(n, s) == list_at32(o, s));
        }
    }
    assert forall|s: u32, id: u64| #[trigger] list_at32(n, s).contains(id) implies live_of_type(c2, id, s) by {
        if list_at32(o, s).contains(id) {
            assert(live_of_type(c1, id, s));
            assert(c2[id - 1] == c1[id - 1]);
        }
    }
    assert forall|i: int| 0 <= i < c2.len() && !(#[trigger] c2[i]).revoked
        implies list_at32(n, c2[i].credential_type).contains(c2[i].id) by {
        if i < c1.len() {
            assert(c2[i] == c1[i]);
            assert(list_at32(o, c1[i].credential_type).contains(c1[i].id));
        }
    }
}

/// `lemma_indexes_after_issue` for one per-subject map.
proof fn lemma_subjects_after_issue(c1: Seq<Credential>, o: Map<u64, Vec<u64>>, c2: Seq<Credential>, n: Map<u64, Vec<u64>>, c: Credential)
    requires
        numbered(c1),
        subject_lists_wf(c1, o),
        c2 == c1.push(c),
        c.id == c1.len() + 1,
        !c.revoked,
        list_at(n, c.subject.0) == list_at(o, c.subject.0).push(c.id),
        only_key_set(o, n, c.subject.0),
    ensures
        subject_lists_wf(c2, n),
{
    let k = c.subject.0;
    lemma_pushed_membership(o, n, k, c.id);
    assert(!list_at(o, k).contains(c.id));
    lemma_push_no_duplicates(list_at(o, k), c.id);
    assert forall|s: u64| #[trigger] list_at(n, s).no_duplicates() by {
        if s != k {
            assert(list_at(n, s) == list_at(o, s));
        }
    }
    assert forall|s: u64, id: u64| #[trigger] list_at(n, s).contains(id) implies held_by(c2, id, s) && !c2[id - 1].revoked by {
        if list_at(o, s).contains(id) {
            assert(held_by(c1, id, s));
            assert(!c1[id - 1].revoked);
            assert(c2[id - 1] == c1[id - 1]);
        } else {
            assert(s == k && id == c.id);
            assert(c2[id - 1] == c);
            assert(held_by(c2, id, s));
        }
    }
    assert forall|i: int| 0 <= i < c2.len() && !(#[trigger] c2[i]).revoked
        implies list_at(n, c2[i].subject.0).contains(c2[i].id) by {
        if i < c1.len() {
            assert(c2[i] == c1[i]);
            assert(list_at(o, c1[i].subject.0).contains(c1[i].id));
        }
    }
}

/// The list under `k` lost `id`, or nothing changed and it did not hold `id`.
pub open spec fn dropped_or_same(olds: Map<u64, Vec<u64>>, news: Map<u64, Vec<u64>>, k: u64, id: u64) -> bool {
    ||| news == olds && !list_at(olds, k).contains(id)
    ||| list_at(news, k) == without_id(list_at(olds, k), id) && only_key_set(olds, news, k)
}

/// `c2` is `c1` with the credential at `j` revoked and nothing else changed
/// in what the lookup lists depend on.
pub open spec fn revoked_at(c1: Seq<Credential>, c2: Seq<Credential>, j: int) -> bool {
    &&& 0 <= j < c1.len()
    &&& c2.len() == c1.len()
    &&& forall|i: int| 0 <= i < c1.len() && i != j ==> #[trigger] c2[i] == c1[i]
    &&& c2[j].id == c1[j].id && c2[j].subject == c1[j].subject && c2[j].credential_type == c1[j].credential_type
    &&& c2[j].revoked
}

/// A per-subject map after the credential at `j` was revoked.
proof fn lemma_subjects_after_revoke(c1: Seq<Credential>, o: Map<u64, Vec<u64>>, c2: Seq<Credential>, n: Map<u64, Vec<u64>>, j: int)
    requires
        numbered(c1),
        subject_lists_wf(c1, o),
        revoked_at(c1, c2, j),
        dropped_or_same(o, n, c1[j].subject.0, c1[j].id),
    ensures
        subject_lists_wf(c2, n),
{
    let (k, id) = (c1[j].subject.0, c1[j].id);
    if n != o {
        lemma_dropped_membership(o, n, k, id);
        lemma_without_id_no_duplicates(list_at(o, k), id);
        assert forall|s: u64| #[trigger] list_at(n, s).no_duplicates() by {
            if s != k {
                assert(list_at(n, s) == list_at(o, s));
            }
        }
    }
    assert forall|s: u64, x: u64| #[trigger] list_at(n, s).contains(x) implies held_by(c2, x, s) && !c2[x - 1].revoked by {
        assert(list_at(o, s).contains(x));
        assert(held_by(c1, x, s));
        if x - 1 != j {
            assert(c2[x - 1] == c1[x - 1]);
        } else {
            assert(c1[j].id == x);
            assert(s == k);
            if n != o {
                assert(!(s == k && x == id));
            } else {
                lemma_without_id_contains(list_at(o, k), id, id);
                assert(!list_at(o, k).contains(id));
            }
        }
    }
    assert forall|i: int| 0 <= i < c2.len() && !(#[trigger] c2[i]).revoked
        implies list_at(n, c2[i].subject.0).contains(c2[i].id) by {
        assert(c2[i] == c1[i]);
        assert(list_at(o, c1[i].subject.0).contains(c1[i].id));
        assert(c1[i].id != id);
    }
}

/// Revoking the credential at `j`, dropped from its type's index and
/// perhaps from its subject's lists, keeps the lookup lists in agreement.
pub proof fn lemma_indexes_after_revoke(c1: Seq<Credential>, ix1: Indexes, c2: Seq<Credential>, ix2: Indexes, j: int)
    requires
        numbered(c1),
        indexes_wf(c1, ix1),
        revoked_at(c1, c2, j),
        dropped_or_same(ix1.subject_credentials@, ix2.subject_credentials@, c1[j].subject.0, c1[j].id),
        dropped_or_same(ix1.subject_index@, ix2.subject_index@, c1[j].subject.0, c1[j].id),
        list_at32(ix2.type_index@, c1[j].credential_type) == without_id(list_at32(ix1.type_index@, c1[j].credential_type), c1[j].id),
        only_key_set(ix1.type_index@, ix2.type_index@, c1[j].credential_type),
    ensures
        indexes_wf(c2, ix2),
{
    lemma_subjects_after_revoke(c1, ix1.subject_credentials@, c2, ix2.subject_credentials@, j);
    lemma_subjects_after_revoke(c1, ix1.subject_index@, c2, ix2.subject_index@, j);
    let (o, n) = (ix1.type_index@, ix2.type_index@);
    let (t, id) = (c1[j].credential_type, c1[j].id);
    lemma_dropped_membership32(o, n, t, id);
    lemma_without_id_no_duplicates(list_at32(o, t), id);
    assert forall|s: u32| #[trigger] list_at32(n, s).no_duplicates() by {
        if s != t {
            assert(list_at32(n, s) == list_at32(o, s));
        }
    }
    assert forall|s: u32, x: u64| #[trigger] list_at32(n, s).contains(x) implies live_of_type(c2, x, s) by {
        assert(list_at32(o, s).contains(x));
        assert(live_of_type(c1, x, s));
        if x - 1 != j {
            assert(c2[x - 1] == c1[x - 1]);
        }
    }
    assert forall|i: int| 0 <= i < c2.len() && !(#[trigger] c2[i]).revoked
        implies list_at32(n, c2[i].credential_type).contains(c2[i].id) by {
        assert(c2[i] == c1[i]);
        assert(list_at32(o, c1[i].credential_type).contains(c1[i].id));
        assert(c1[i].id != id);
    }
}

/// `c2` is `c1` with the credential at `j` passed to `to`.
pub open spec fn moved_at(c1: Seq<Credential>, c2: Seq<Credential>, j: int, to: Address) -> bool {
    &&& 0 <= j < c1.len()
    &&& c2.len() == c1.len()
    &&& forall|i: int| 0 <= i < c1.len() && i != j ==> #[trigger] c2[i] == c1[i]
    &&& c2[j].id == c1[j].id && c2[j].subject == to && c2[j].credential_type == c1[j].credential_type
    &&& c2[j].revoked == c1[j].revoked
}

/// A per-subject map after the credential at `j` passed to `to`.
proof fn lemma_subjects_after_move(c1: Seq<Credential>, o: Map<u64, Vec<u64>>, c2: Seq<Credential>, n: Map<u64, Vec<u64>>, j: int, to: Address)
    requires
        numbered(c1),
        subject_lists_wf(c1, o),
        moved_at(c1, c2, j, to),
        !c1[j].revoked,
        subject_moved(o, n, c1[j].subject, to, c1[j].id),
    ensures
        subject_lists_wf(c2, n),
{
    let (prev, id) = (c1[j].subject, c1[j].id);
    assert forall|s: u64| s != prev.0 && s != to.0 implies #[trigger] list_at(n, s) == list_at(o, s) by {
        assert(n.remove(prev.0).remove(to.0).contains_key(s) == o.remove(prev.0).remove(to.0).contains_key(s));
        if o.contains_key(s) {
            assert(n.remove(prev.0).remove(to.0)[s] == o.remove(prev.0).remove(to.0)[s]);
        }
    }
    let op = list_at(o, prev.0);
    lemma_without_id_no_duplicates(op, id);
    assert forall|x: u64| #[trigger] without_id(op, id).contains(x) <==> op.contains(x) && x != id by {
        lemma_without_id_contains(op, id, x);
    }
    assert forall|s: u64, x: u64| #[trigger] list_at(n, s).contains(x)
        <==> (list_at(o, s).contains(x) && !(s == prev.0 && x == id)) || (s == to.0 && x == id) by {
        if s != prev.0 && s != to.0 {
            assert(list_at(n, s) == list_at(o, s));
        }
    }
    if to != prev {
        assert(!list_at(o, to.0).contains(id)) by {
            if list_at(o, to.0).contains(id) {
                assert(held_by(c1, id, to.0));
            }
        }
        lemma_push_no_duplicates(list_at(o, to.0), id);
    } else {
        lemma_push_no_duplicates(without_id(op, id), id);
    }
    assert forall|s: u64| #[trigger] list_at(n, s).no_duplicates() by {
        if s != prev.0 && s != to.0 {
            assert(list_at(n, s) == list_at(o, s));
        }
    }
    assert forall|s: u64, x: u64| #[trigger] list_at(n, s).contains(x) implies held_by(c2, x, s) && !c2[x - 1].revoked by {
        if list_at(o, s).contains(x) && !(s == prev.0 && x == id) {
            assert(held_by(c1, x, s));
            if x - 1 != j {
                assert(c2[x - 1] == c1[x - 1]);
            }
        }
    }
    assert forall|i: int| 0 <= i < c2.len() && !(#[trigger] c2[i]).revoked
        implies list_at(n, c2[i].subject.0).contains(c2[i].id) by {
        if i != j {
            assert(c2[i] == c1[i]);
            assert(list_at(o, c1[i].subject.0).contains(c1[i].id));
            assert(c1[i].id != id);
        }
    }
}

/// A per-subject map, unchanged, after the revoked credential at `j`
/// passed to `to`: no list holds it.
proof fn lemma_subjects_after_revoked_move(c1: Seq<Credential>, m: Map<u64, Vec<u64>>, c2: Seq<Credential>, j: int, to: Address)
    requires
        subject_lists_wf(c1, m),
        moved_at(c1, c2, j, to),
        c1[j].revoked,
    ensures
        subject_lists_wf(c2, m),
{
    assert forall|s: u64, x: u64| #[trigger] list_at(m, s).contains(x) implies held_by(c2, x, s) && !c2[x - 1].revoked by {
        assert(held_by(c1, x, s) && !c1[x - 1].revoked);
        assert(x - 1 != j);
        assert(c2[x - 1] == c1[x - 1]);
    }
    assert forall|i: int| 0 <= i < c2.len() && !(#[trigger] c2[i]).revoked
        implies list_at(m, c2[i].subject.0).contains(c2[i].id) by {
        assert(i != j);
        assert(c2[i] == c1[i]);
    }
}

/// Passing the credential at `j` to `to` keeps the lookup lists in
/// agreement: moved between the subjects' lists when it is not revoked,
/// and with the lists unchanged when it is.
pub proof fn lemma_indexes_after_move(c1: Seq<Credential>, ix1: Indexes, c2: Seq<Credential>, ix2: Indexes, j: int, to: Address)
    requires
        numbered(c1),
        indexes_wf(c1, ix1),
        moved_at(c1, c2, j, to),
        !c1[j].revoked ==> subject_moved(ix1.subject_credentials@, ix2.subject_credentials@, c1[j].subject, to, c1[j].id),
        !c1[j].revoked ==> subject_moved(ix1.subject_index@, ix2.subject_index@, c1[j].subject, to, c1[j].id),
        c1[j].revoked ==> ix2.subject_credentials == ix1.subject_credentials && ix2.subject_index == ix1.subject_index,
        ix2.type_index == ix1.type_index,
    ensures
        indexes_wf(c2, ix2),
{
    if c1[j].revoked {
        lemma_subjects_after_revoked_move(c1, ix1.subject_credentials@, c2, j, to);
        lemma_subjects_after_revoked_move(c1, ix1.subject_index@, c2, j, to);
    } else {
        lemma_subjects_after_move(c1, ix1.subject_credentials@, c2, ix2.subject_credentials@, j, to);
        lemma_subjects_after_move(c1, ix1.subject_index@, c2, ix2.subject_index@, j, to);
    }
    let m = ix2.type_index@;
    assert forall|s: u32, x: u64| #[trigger] list_at32(m, s).contains(x) implies live_of_type(c2, x, s) by {
        assert(live_of_type(c1, x, s));
        if x - 1 != j {
            assert(c2[x - 1] == c1[x - 1]);
        }
    }
    assert forall|i: int| 0 <= i < c2.len() && !(#[trigger] c2[i]).revoked
        implies list_at32(m, c2[i].credential_type).contains(c2[i].id) by {
        if i != j {
            assert(c2[i] == c1[i]);
        } else {
            assert(!c1[j].revoked);
        }
    }
}

} // verus!
