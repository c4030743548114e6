use vstd::prelude::*;
use crate::admin::admin_failure;
use crate::errors::{Abort, ContractError, Fault};
use crate::state::{only_changed, Part, QuorumProofContract};
use crate::store::{list_at32, only_key_set};
use crate::types::CredentialTypeDef;

verus! {

broadcast use vstd::std_specs::hash::group_hash_axioms;

/// The chain of parents above type `t`, nearest first, followed for at
/// most `fuel` links.
pub open spec fn parent_chain(parents: Map<u32, u32>, t: u32, fuel: nat) -> Seq<u32>
    decreases fuel,
{
    if fuel == 0 || !parents.contains_key(t) {
        Seq::empty()
    } else {
        seq![parents[t]] + parent_chain(parents, parents[t], (fuel - 1) as nat)
    }
}

/// The ancestors of type `t`, nearest first: its chain of parents, followed
/// for at most as many links as are stored. With no cycle among the links,
/// as `register_credential_type` keeps it, that is the whole chain.
pub open spec fn ancestors_of(parents: Map<u32, u32>, t: u32) -> Seq<u32> {
    parent_chain(parents, t, parents.len())
}

/// Making `potential_parent` the parent of `type_id` closes a cycle: it is
/// `type_id` itself or has `type_id` among its ancestors.
pub open spec fn closes_cycle(parents: Map<u32, u32>, type_id: u32, potential_parent: u32) -> bool {
    type_id == potential_parent || ancestors_of(parents, potential_parent).contains(type_id)
}

/// The chain of a type with a parent starts with that parent.
proof fn lemma_chain_step(parents: Map<u32, u32>, t: u32, fuel: nat)
    requires
        fuel > 0,
        parents.contains_key(t),
    ensures
        parent_chain(parents, t, fuel) == seq![parents[t]] + parent_chain(parents, parents[t], (fuel - 1) as nat),
{
}

/// Every recorded link leads to a type of lower rank.
pub open spec fn ranked_by(parents: Map<u32, u32>, rank: spec_fn(u32) -> nat) -> bool {
    forall|t: u32| #[trigger] parents.contains_key(t) ==> rank(parents[t]) < rank(t)
}

/// The type hierarchy has no cycle: some rank drops along every link.
pub open spec fn hierarchy_acyclic(parents: Map<u32, u32>) -> bool {
    exists|rank: spec_fn(u32) -> nat| ranked_by(parents, rank)
}

/// Each element of a chain is the parent of the one before it (of `t`
/// for the first), and a chain shorter than its fuel ends at a type
/// without a parent.
proof fn lemma_chain_links(parents: Map<u32, u32>, t: u32, fuel: nat)
    ensures
        parent_chain(parents, t, fuel).len() <= fuel,
        parent_chain(parents, t, fuel).len() > 0 ==> parents.contains_key(t)
            && parent_chain(parents, t, fuel)[0] == parents[t],
        forall|i: int| 1 <= i < parent_chain(parents, t, fuel).len() ==>
            parents.contains_key(#[trigger] parent_chain(parents, t, fuel)[i - 1])
            && parent_chain(parents, t, fuel)[i] == parents[parent_chain(parents, t, fuel)[i - 1]],
        parent_chain(parents, t, fuel).len() == 0 && fuel > 0 ==> !parents.contains_key(t),
    decreases fuel,
{
    if fuel > 0 && parents.contains_key(t) {
        let p = parents[t];
        lemma_chain_links(parents, p, (fuel - 1) as nat);
        let tail = parent_chain(parents, p, (fuel - 1) as nat);
        let s = parent_chain(parents, t, fuel);
        assert(s == seq![p] + tail);
        assert forall|i: int| 1 <= i < s.len() implies
            parents.contains_key(#[trigger] s[i - 1]) && s[i] == parents[s[i - 1]] by {
            if i == 1 {
                assert(s[0] == p);
                assert(s[1] == tail[0]);
            } else {
                assert(s[i - 1] == tail[i - 2]);
                assert(s[i] == tail[i - 1]);
            }
        }
    }
}

/// Along a ranked hierarchy, ranks drop from `t` down its chain.
proof fn lemma_chain_ranks(parents: Map<u32, u32>, rank: spec_fn(u32) -> nat, t: u32, fuel: nat)
    requires
        ranked_by(parents, rank),
    ensures
        forall|i: int| 0 <= i < parent_chain(parents, t, fuel).len() ==>
            rank(#[trigger] parent_chain(parents, t, fuel)[i]) < rank(t),
        forall|i: int, j: int| 0 <= i < j < parent_chain(parents, t, fuel).len() ==>
            rank(#[trigger] parent_chain(parents, t, fuel)[j]) < rank(#[trigger] parent_chain(parents, t, fuel)[i]),
    decreases fuel,
{
    if fuel > 0 && parents.contains_key(t) {
        let p = parents[t];
        lemma_chain_ranks(parents, rank, p, (fuel - 1) as nat);
        let tail = parent_chain(parents, p, (fuel - 1) as nat);
        let s = parent_chain(parents, t, fuel);
        assert(s == seq![p] + tail);
        assert(rank(p) < rank(t));
        assert forall|i: int| 0 <= i < s.len() implies rank(#[trigger] s[i]) < rank(t) by {
            if i > 0 {
                assert(s[i] == tail[i - 1]);
            }
        }
        assert forall|i: int, j: int| 0 <= i < j < s.len() implies rank(#[trigger] s[j]) < rank(#[trigger] s[i]) by {
            assert(s[j] == tail[j - 1]);
            if i > 0 {
                assert(s[i] == tail[i - 1]);
            }
        }
    }
}

/// In a finite ranked hierarchy no chain is longer than the number of links.
proof fn lemma_chain_len_bound(parents: Map<u32, u32>, rank: spec_fn(u32) -> nat, t: u32, fuel: nat)
    requires
        ranked_by(parents, rank),
        parents.dom().finite(),
    ensures
        parent_chain(parents, t, fuel).len() <= parents.len(),
{
    let s = parent_chain(parents, t, fuel);
    lemma_chain_links(parents, t, fuel);
    lemma_chain_ranks(parents, rank, t, fuel);
    if s.len() > 0 {
        let q = seq![t] + s.drop_last();
        assert(q.len() == s.len());
        assert forall|i: int, j: int| 0 <= i < j < q.len() implies q[i] != q[j] by {
            assert(q[j] == s[j - 1]);
            if i == 0 {
                assert(rank(s[j - 1]) < rank(t));
            } else {
                assert(q[i] == s[i - 1]);
                assert(rank(s[j - 1]) < rank(s[i - 1]));
            }
        }
        assert(q.no_duplicates());
        q.unique_seq_to_set();
        assert forall|x: u32| q.to_set().contains(x) implies parents.dom().contains(x) by {
            let i = choose|i: int| 0 <= i < q.len() && q[i] == x;
            if i > 0 {
                assert(q[i] == s[i - 1]);
                assert(parents.contains_key(s[i - 1]));
            }
        }
        vstd::set_lib::lemma_len_subset(q.to_set(), parents.dom());
    }
}

/// Chains with less fuel are prefixes of chains with more.
proof fn lemma_chain_prefix(parents: Map<u32, u32>, t: u32, fuel: nat, more: nat)
    requires
        fuel <= more,
    ensures
        parent_chain(parents, t, fuel) == parent_chain(parents, t, more).subrange(
            0,
            if fuel < parent_chain(parents, t, more).len() { fuel as int } else { parent_chain(parents, t, more).len() as int },
        ),
    decreases fuel,
{
    lemma_chain_links(parents, t, more);
    if fuel > 0 && parents.contains_key(t) {
        let p = parents[t];
        lemma_chain_prefix(parents, p, (fuel - 1) as nat, (more - 1) as nat);
        let long = parent_chain(parents, t, more);
        assert(long == seq![p] + parent_chain(parents, p, (more - 1) as nat));
        assert(parent_chain(parents, t, fuel) =~= long.subrange(
            0,
            if fuel < long.len() { fuel as int } else { long.len() as int },
        ));
    } else {
        assert(parent_chain(parents, t, fuel) =~= Seq::<u32>::empty());
        assert(parent_chain(parents, t, more) =~= Seq::<u32>::empty() || fuel == 0);
    }
}

/// In a finite hierarchy without cycles, more fuel than there are links
/// finds no further ancestor: `ancestors_of` is the whole chain.
pub proof fn lemma_ancestors_complete(parents: Map<u32, u32>, t: u32, fuel: nat)
    requires
        hierarchy_acyclic(parents),
        parents.dom().finite(),
        fuel >= parents.len(),
    ensures
        parent_chain(parents, t, fuel) == ancestors_of(parents, t),
{
    let rank = choose|rank: spec_fn(u32) -> nat| ranked_by(parents, rank);
    lemma_chain_len_bound(parents, rank, t, fuel);
    lemma_chain_prefix(parents, t, parents.len(), fuel);
    assert(parent_chain(parents, t, fuel).subrange(0, parent_chain(parents, t, fuel).len() as int)
        =~= parent_chain(parents, t, fuel));
}

/// Linking `type_id` to `parent` keeps a finite hierarchy without cycles
/// free of them, when `parent` is not `type_id` and not below it.
pub proof fn lemma_link_keeps_hierarchy_acyclic(parents: Map<u32, u32>, type_id: u32, parent: u32)
    requires
        hierarchy_acyclic(parents),
        parents.dom().finite(),
        !closes_cycle(parents, type_id, parent),
    ensures
        hierarchy_acyclic(parents.insert(type_id, parent)),
{
    let rank = choose|rank: spec_fn(u32) -> nat| ranked_by(parents, rank);
    let l = parents.len();
    let bonus = rank(parent) + 1;
    let below = |x: u32| x == type_id || parent_chain(parents, x, l).contains(type_id);
    let rank2 = |x: u32| if below(x) { (rank(x) + bonus) as nat } else { rank(x) };
    let next = parents.insert(type_id, parent);
    assert forall|t: u32| #[trigger] next.contains_key(t) implies rank2(next[t]) < rank2(t) by {
        if t == type_id {
            assert(!below(parent));
        } else {
            let q = parents[t];
            assert(rank(q) < rank(t));
            if below(q) && !below(t) {
                lemma_ancestors_complete(parents, t, (l + 1) as nat);
                let long = parent_chain(parents, t, (l + 1) as nat);
                assert(long == seq![q] + parent_chain(parents, q, l));
                if q == type_id {
                    assert(long[0] == type_id);
                } else {
                    let k = choose|k: int| 0 <= k < parent_chain(parents, q, l).len() && parent_chain(parents, q, l)[k] == type_id;
                    assert(long[k + 1] == type_id);
                }
                assert(long.contains(type_id));
            }
        }
    }
    assert(ranked_by(next, rank2));
}

/// The parent that re-registering `type_id` with `parent_type` takes it
/// away from: its recorded parent, unless that stays its parent.
pub open spec fn former_parent(parents: Map<u32, u32>, type_id: u32, parent_type: Option<u32>) -> Option<u32> {
    if parents.contains_key(type_id) && parent_type != Some(parents[type_id]) {
        Some(parents[type_id])
    } else {
        None
    }
}

/// The parents whose lists of children a registration may change.
pub open spec fn touched_parents(parents: Map<u32, u32>, type_id: u32, parent_type: Option<u32>) -> Set<u32> {
    let from = match former_parent(parents, type_id, parent_type) {
        Some(q) => set![q],
        None => Set::empty(),
    };
    match parent_type {
        Some(p) => from.insert(p),
        None => from,
    }
}

/// The list without any occurrence of `x`, order kept.
pub open spec fn without_type(s: Seq<u32>, x: u32) -> Seq<u32>
    decreases s.len(),
{
    if s.len() == 0 {
        s
    } else if s.last() == x {
        without_type(s.drop_last(), x)
    } else {
        without_type(s.drop_last(), x).push(s.last())
    }
}

/// Each type's list of children holds exactly the types whose recorded
/// parent it is, each once.
pub open spec fn children_mirror_parents(parents: Map<u32, u32>, children: Map<u32, Vec<u32>>) -> bool {
    &&& forall|k: u32, x: u32| #[trigger] list_at32(children, k).contains(x)
        <==> parents.contains_key(x) && parents[x] == k
    &&& forall|k: u32| #[trigger] list_at32(children, k).no_duplicates()
}

/// Removing a type from a list keeps the rest, and keeps it free of repeats.
proof fn lemma_without_type_contents(s: Seq<u32>, t: u32)
    ensures
        forall|x: u32| #[trigger] without_type(s, t).contains(x) <==> s.contains(x) && x != t,
        s.no_duplicates() ==> without_type(s, t).no_duplicates(),
    decreases s.len(),
{
    if s.len() > 0 {
        let init = s.drop_last();
        lemma_without_type_contents(init, t);
        assert forall|x: u32| s.contains(x) <==> init.contains(x) || s.last() == x by {
            if s.contains(x) {
                let k = choose|k: int| 0 <= k < s.len() && s[k] == x;
                if k < s.len() - 1 {
                    assert(init[k] == x);
                }
            }
            if init.contains(x) {
                let k = choose|k: int| 0 <= k < init.len() && init[k] == x;
                assert(s[k] == x);
            }
        }
        if s.no_duplicates() {
            assert(init.no_duplicates()) by {
                assert forall|i: int, j: int| 0 <= i < init.len() && 0 <= j < init.len() && i != j
                    implies init[i] != init[j] by {
                    assert(init[i] == s[i] && init[j] == s[j]);
                }
            }
            assert(!init.contains(s.last())) by {
                if init.contains(s.last()) {
                    let k = choose|k: int| 0 <= k < init.len() && init[k] == s.last();
                    assert(s[k] == s[s.len() - 1]);
                }
            }
        }
        if s.last() != t {
            let rest = without_type(init, t);
            assert forall|x: u32| #[trigger] rest.push(s.last()).contains(x) <==> rest.contains(x) || x == s.last() by {
                if rest.contains(x) {
                    let k = choose|k: int| 0 <= k < rest.len() && rest[k] == x;
                    assert(rest.push(s.last())[k] == x);
                }
                if x == s.last() {
                    assert(rest.push(s.last())[rest.len() as int] == x);
                }
                if rest.push(s.last()).contains(x) && x != s.last() {
                    let k = choose|k: int| 0 <= k < rest.len() + 1 && rest.push(s.last())[k] == x;
                    assert(rest[k] == x);
                }
            }
            if s.no_duplicates() {
                assert forall|i: int, j: int| 0 <= i < rest.push(s.last()).len() && 0 <= j < rest.push(s.last()).len()
                    && i != j implies rest.push(s.last())[i] != rest.push(s.last())[j] by {
                    if i == rest.len() {
                        assert(rest.contains(rest[j]));
                    } else if j == rest.len() {
                        assert(rest.contains(rest[i]));
                    }
                }
            }
        }
    }
}

/// A list with a new type at its end: it holds what it held and the type,
/// and stays free of repeats when the type was not there.
proof fn lemma_push_type(s: Seq<u32>, t: u32)
    ensures
        forall|x: u32| #[trigger] s.push(t).contains(x) <==> s.contains(x) || x == t,
        s.no_duplicates() && !s.contains(t) ==> s.push(t).no_duplicates(),
{
    assert forall|x: u32| #[trigger] s.push(t).contains(x) <==> s.contains(x) || x == t by {
        if s.contains(x) {
            let k = choose|k: int| 0 <= k < s.len() && s[k] == x;
            assert(s.push(t)[k] == x);
        }
        if x == t {
            assert(s.push(t)[s.len() as int] == x);
        }
        if s.push(t).contains(x) && x != t {
            let k = choose|k: int| 0 <= k < s.len() + 1 && s.push(t)[k] == x;
            assert(s[k] == x);
        }
    }
    if s.no_duplicates() && !s.contains(t) {
        assert forall|i: int, j: int| 0 <= i < s.push(t).len() && 0 <= j < s.push(t).len() && i != j
            implies s.push(t)[i] != s.push(t)[j] by {
            if i == s.len() {
                assert(s.contains(s[j]));
            } else if j == s.len() {
                assert(s.contains(s[i]));
            }
        }
    }
}

/// Re-registering `type_id` with `parent_type`, as `register_credential_type`
/// changes the parent links and the lists of children, keeps each list of
/// children the exact list of the types that name it as parent.
proof fn lemma_register_keeps_mirror(
    parents: Map<u32, u32>,
    children: Map<u32, Vec<u32>>,
    parents2: Map<u32, u32>,
    children2: Map<u32, Vec<u32>>,
    type_id: u32,
    parent_type: Option<u32>,
)
    requires
        children_mirror_parents(parents, children),
        parent_type is None ==> parents2 == parents.remove(type_id),
        parent_type matches Some(p) ==> parents2 == parents.insert(type_id, p),
        former_parent(parents, type_id, parent_type) matches Some(q) ==> list_at32(children2, q)
            == without_type(list_at32(children, q), type_id),
        parent_type matches Some(p) ==> (list_at32(children, p).contains(type_id)
            ==> list_at32(children2, p) == list_at32(children, p))
            && (!list_at32(children, p).contains(type_id)
            ==> list_at32(children2, p) == list_at32(children, p).push(type_id)),
        children2.remove_keys(touched_parents(parents, type_id, parent_type))
            == children.remove_keys(touched_parents(parents, type_id, parent_type)),
    ensures
        children_mirror_parents(parents2, children2),
{
    let t = type_id;
    let touched = touched_parents(parents, t, parent_type);
    let former = former_parent(parents, t, parent_type);
    assert forall|k: u32| !touched.contains(k) implies #[trigger] list_at32(children2, k) == list_at32(children, k) by {
        assert(children2.remove_keys(touched).contains_key(k) == children.remove_keys(touched).contains_key(k));
        if children.contains_key(k) {
            assert(children2.remove_keys(touched)[k] == children.remove_keys(touched)[k]);
        }
    }
    if let Some(q) = former {
        lemma_without_type_contents(list_at32(children, q), t);
    }
    if let Some(p) = parent_type {
        lemma_push_type(list_at32(children, p), t);
    }
    assert forall|k: u32, x: u32| #[trigger] list_at32(children2, k).contains(x)
        <==> parents2.contains_key(x) && parents2[x] == k by {
        assert(list_at32(children, k).contains(x) <==> parents.contains_key(x) && parents[x] == k);
        if !touched.contains(k) {
            assert(list_at32(children2, k) == list_at32(children, k));
            if x == t {
                assert(list_at32(children, k).contains(t) ==> parents.contains_key(t) && parents[t] == k);
            }
        }
    }
    assert forall|k: u32| #[trigger] list_at32(children2, k).no_duplicates() by {
        assert(list_at32(children, k).no_duplicates());
        if !touched.contains(k) {
            assert(list_at32(children2, k) == list_at32(children, k));
        }
    }
}

/// Filters `x` out of a list of types.
pub fn remove_type(s: &Vec<u32>, x: u32) -> (r: Vec<u32>)
    ensures
        r@ == without_type(s@, x),
{
    let mut r: Vec<u32> = Vec::new();
    let mut i: usize = 0;
    while i < s.len()
        invariant
            i <= s.len(),
            r@ == without_type(s@.take(i as int), x),
        decreases s.len() - i,
    {
        assert(s@.take(i as int + 1).drop_last() =~= s@.take(i as int));
        if s[i] != x {
            r.push(s[i]);
        }
        i += 1;
    }
    assert(s@.take(s.len() as int) =~= s@);
    r
}

/// Dropping a type's parent link keeps a hierarchy without cycles free of them.
pub proof fn lemma_unlink_keeps_hierarchy_acyclic(parents: Map<u32, u32>, type_id: u32)
    requires
        hierarchy_acyclic(parents),
    ensures
        hierarchy_acyclic(parents.remove(type_id)),
{
    let rank = choose|rank: spec_fn(u32) -> nat| ranked_by(parents, rank);
    assert(ranked_by(parents.remove(type_id), rank));
}

impl QuorumProofContract {
    /// The parent of a type, if one is recorded.
    pub fn get_credential_type_parent(&self, type_id: u32) -> (p: Option<u32>)
        ensures
            p == (if self.registry.parents@.contains_key(type_id) { Some(self.registry.parents@[type_id]) } else { None }),
    {
        match self.registry.parents.get(&type_id) {
            Some(p) => Some(*p),
            None => None,
        }
    }

    /// The ancestors of a type, nearest first (`ancestors_of`).
    pub fn get_credential_type_ancestors(&self, type_id: u32) -> (v: Vec<u32>)
        ensures
            v@ == ancestors_of(self.registry.parents@, type_id),
    {
        let fuel = self.registry.parents.len();
        let mut out: Vec<u32> = Vec::new();
        let mut current = self.get_credential_type_parent(type_id);
        let mut t = type_id;
        let mut left: usize = fuel;
        proof {
            if fuel > 0 && self.registry.parents@.contains_key(type_id) {
                lemma_chain_step(self.registry.parents@, type_id, fuel as nat);
            }
        }
        while left > 0 && current.is_some()
            invariant
                left <= fuel,
                fuel == self.registry.parents@.len(),
                current == (if self.registry.parents@.contains_key(t) { Some(self.registry.parents@[t]) } else { None }),
                ancestors_of(self.registry.parents@, type_id) == out@ + parent_chain(self.registry.parents@, t, left as nat),
            decreases left,
        {
            let p = match current {
                Some(p) => p,
                None => 0,
            };
            proof {
                lemma_chain_step(self.registry.parents@, t, left as nat);
            }
            out.push(p);
            proof {
                assert(out@ + parent_chain(self.registry.parents@, p, (left - 1) as nat)
                    =~= out@.drop_last() + (seq![p] + parent_chain(self.registry.parents@, p, (left - 1) as nat)));
            }
            t = p;
            current = self.get_credential_type_parent(p);
            left = left - 1;
        }
        proof {
            assert(parent_chain(self.registry.parents@, t, left as nat) =~= Seq::<u32>::empty());
            assert(out@ + Seq::<u32>::empty() =~= out@);
        }
        out
    }

    /// Whether `parent_id` is among the ancestors of `child_id`.
    pub fn is_credential_type_child_of(&self, child_id: u32, parent_id: u32) -> (b: bool)
        ensures
            b == ancestors_of(self.registry.parents@, child_id).contains(parent_id),
    {
        let ancestors = self.get_credential_type_ancestors(child_id);
        let mut k: usize = 0;
        while k < ancestors.len()
            invariant
                k <= ancestors.len(),
                ancestors@ == ancestors_of(self.registry.parents@, child_id),
                forall|j: int| 0 <= j < k ==> ancestors@[j] != parent_id,
            decreases ancestors.len() - k,
        {
            if ancestors[k] == parent_id {
                proof {
                    assert(ancestors@[k as int] == parent_id);
                }
                return true;
            }
            k += 1;
        }
        false
    }

    /// The types whose verification rules apply to `type_id`: the type
    /// itself, then its ancestors from its parent up to the root.
    pub fn inherit_verification_rules(&self, type_id: u32) -> (v: Vec<u32>)
        ensures
            v@ == seq![type_id] + ancestors_of(self.registry.parents@, type_id),
    {
        let ancestors = self.get_credential_type_ancestors(type_id);
        let mut rules: Vec<u32> = Vec::new();
        rules.push(type_id);
        let mut k: usize = 0;
        while k < ancestors.len()
            invariant
                k <= ancestors.len(),
                rules@ == seq![type_id] + ancestors@.subrange(0, k as int),
            decreases ancestors.len() - k,
        {
            rules.push(ancestors[k]);
            proof {
                assert(ancestors@.subrange(0, k as int + 1) =~= ancestors@.subrange(0, k as int).push(ancestors@[k as int]));
                assert(rules@ =~= seq![type_id] + ancestors@.subrange(0, k as int + 1));
            }
            k += 1;
        }
        proof {
            assert(ancestors@.subrange(0, ancestors.len() as int) =~= ancestors@);
        }
        rules
    }

    /// Whether making `potential_parent` the parent of `type_id` would close
    /// a cycle (`closes_cycle`).
    pub fn would_create_cycle(&self, type_id: u32, potential_parent: u32) -> (b: bool)
        ensures
            b == closes_cycle(self.registry.parents@, type_id, potential_parent),
    {
        if type_id == potential_parent {
            return true;
        }
        let ancestors = self.get_credential_type_ancestors(potential_parent);
        let mut k: usize = 0;
        while k < ancestors.len()
            invariant
                k <= ancestors.len(),
                ancestors@ == ancestors_of(self.registry.parents@, potential_parent),
                type_id != potential_parent,
                forall|j: int| 0 <= j < k ==> ancestors@[j] != type_id,
            decreases ancestors.len() - k,
        {
            if ancestors[k] == type_id {
                proof {
                    assert(ancestors@[k as int] == type_id);
                }
                return true;
            }
            k += 1;
        }
        false
    }

    /// Whether type `parent_type` is registered.
    pub fn parent_type_exists(&self, parent_type: u32) -> (b: bool)
        ensures
            b == self.registry.types@.contains_key(parent_type),
    {
        self.registry.types.contains_key(&parent_type)
    }

    /// The first reason to refuse `register_credential_type`; `None` when it succeeds.
    pub open spec fn register_type_failure(&self, admin: crate::types::Address, type_id: u32, parent_type: Option<u32>) -> Option<Fault> {
        if admin_failure(self.config, admin) is Some {
            admin_failure(self.config, admin)
        } else if parent_type matches Some(p) && !self.registry.types@.contains_key(p) {
            Some(Fault::Contract(ContractError::InvalidParentType))
        } else if parent_type matches Some(p) && closes_cycle(self.registry.parents@, type_id, p) {
            Some(Fault::Contract(ContractError::CircularHierarchy))
        } else {
            None
        }
    }

    /// The admin registers (or re-registers) a credential type, with an
    /// optional registered parent that must not close a cycle. The entry is
    /// overwritten: the type records its new parent (or none), leaves the
    /// children of a former parent it no longer has, and joins the new
    /// parent's children once.
    pub fn register_credential_type(
        &mut self,
        admin: crate::types::Address,
        type_id: u32,
        name: String,
        description: String,
        parent_type: Option<u32>,
    ) -> (r: Result<(), Fault>)
        requires
            old(self).wf(),
        ensures
            final(self).wf(),
            r is Err <==> old(self).register_type_failure(admin, type_id, parent_type) is Some,
            r matches Err(f) ==> old(self).register_type_failure(admin, type_id, parent_type) == Some(f)
                && *final(self) == *old(self),
            r is Ok ==> {
                let def = final(self).registry.types@[type_id];
                let former = former_parent(old(self).registry.parents@, type_id, parent_type);
                let touched = touched_parents(old(self).registry.parents@, type_id, parent_type);
                &&& final(self).registry.types@.contains_key(type_id)
                &&& final(self).registry.types@.remove(type_id) == old(self).registry.types@.remove(type_id)
                &&& def.type_id == type_id && def.name@ == name@ && def.description@ == description@
                &&& def.parent_type == parent_type
                &&& parent_type is None ==> final(self).registry.parents@ == old(self).registry.parents@.remove(type_id)
                &&& parent_type matches Some(p) ==> final(self).registry.parents@ == old(self).registry.parents@.insert(type_id, p)
                &&& former matches Some(q) ==> list_at32(final(self).registry.children@, q)
                    == without_type(list_at32(old(self).registry.children@, q), type_id)
                &&& parent_type matches Some(p) ==> (list_at32(old(self).registry.children@, p).contains(type_id)
                    ==> list_at32(final(self).registry.children@, p) == list_at32(old(self).registry.children@, p))
                    && (!list_at32(old(self).registry.children@, p).contains(type_id)
                    ==> list_at32(final(self).registry.children@, p) == list_at32(old(self).registry.children@, p).push(type_id))
                &&& final(self).registry.children@.remove_keys(touched) == old(self).registry.children@.remove_keys(touched)
                &&& only_changed(*old(self), *final(self), set![Part::Registry])
            },
            hierarchy_acyclic(old(self).registry.parents@) ==> hierarchy_acyclic(final(self).registry.parents@),
    {
        self.check_admin(admin)?;
        if let Some(p) = parent_type {
            if !self.parent_type_exists(p) {
                return Err(Fault::Contract(ContractError::InvalidParentType));
            }
            if self.would_create_cycle(type_id, p) {
                return Err(Fault::Contract(ContractError::CircularHierarchy));
            }
        }
        let ghost old_children = self.registry.children@;
        let ghost old_parents = self.registry.parents@;
        self.registry.types.insert(type_id, CredentialTypeDef { type_id, name, description, parent_type });
        proof {
            assert(self.registry.types@.remove(type_id) =~= old(self).registry.types@.remove(type_id));
        }
        let former: Option<u32> = match self.registry.parents.get(&type_id) {
            Some(q) => {
                let same = match parent_type {
                    Some(p) => p == *q,
                    None => false,
                };
                if same { None } else { Some(*q) }
            },
            None => None,
        };
        assert(former == former_parent(old_parents, type_id, parent_type));
        if let Some(q) = former {
            let kept = match self.registry.children.get(&q) {
                Some(v) => remove_type(v, type_id),
                None => Vec::new(),
            };
            assert(kept@ == without_type(list_at32(old_children, q), type_id)) by {
                if !old_children.contains_key(q) {
                    assert(list_at32(old_children, q) =~= Seq::<u32>::empty());
                }
            }
            self.registry.children.insert(q, kept);
        }
        let ghost mid_children = self.registry.children@;
        match parent_type {
            Some(p) => {
                self.registry.parents.insert(type_id, p);
                assert(former is Some ==> former->Some_0 != p);
                let present = match self.registry.children.get(&p) {
                    Some(v) => contains_u32(v, type_id),
                    None => false,
                };
                if !present {
                    let mut list = match self.registry.children.remove(&p) {
                        Some(v) => v,
                        None => Vec::new(),
                    };
                    list.push(type_id);
                    self.registry.children.insert(p, list);
                }
                proof {
                    assert(list_at32(mid_children, p) == list_at32(old_children, p));
                }
            },
            None => {
                self.registry.parents.remove(&type_id);
            },
        }
        proof {
            let touched = touched_parents(old_parents, type_id, parent_type);
            assert(self.registry.children@.remove_keys(touched) =~= old_children.remove_keys(touched));
            lemma_register_keeps_mirror(old_parents, old_children, self.registry.parents@, self.registry.children@,
                type_id, parent_type);
            if hierarchy_acyclic(old_parents) {
                match parent_type {
                    Some(p) => lemma_link_keeps_hierarchy_acyclic(old_parents, type_id, p),
                    None => lemma_unlink_keeps_hierarchy_acyclic(old_parents, type_id),
                }
            }
        }
        Ok(())
    }

    /// The registration of a type, or `NotFound` when it is not registered.
    pub fn get_credential_type(&self, type_id: u32) -> (r: Result<&CredentialTypeDef, Fault>)
        ensures
            r == (if self.registry.types@.contains_key(type_id) {
                Ok::<&CredentialTypeDef, Fault>(&self.registry.types@[type_id])
            } else {
                Err(Fault::Abort(Abort::NotFound))
            }),
    {
        match self.registry.types.get(&type_id) {
            Some(d) => Ok(d),
            None => Err(Fault::Abort(Abort::NotFound)),
        }
    }

    /// The direct children of a type, in registration order.
    pub fn get_credential_type_children(&self, parent_type_id: u32) -> (t: &[u32])
        ensures
            t@ == list_at32(self.registry.children@, parent_type_id),
    {
        match self.registry.children.get(&parent_type_id) {
            Some(v) => v.as_slice(),
            None => &[],
        }
    }
}

/// Whether `x` is in the list.
pub fn contains_u32(s: &Vec<u32>, x: u32) -> (b: bool)
    ensures
        b == s@.contains(x),
{
    let mut k: usize = 0;
    while k < s.len()
        invariant
            k <= s.len(),
            forall|j: int| 0 <= j < k ==> s@[j] != x,
        decreases s.len() - k,
    {
        if s[k] == x {
            proof {
                assert(s@[k as int] == x);
            }
            return true;
        }
        k += 1;
    }
    false
}

} // verus!
