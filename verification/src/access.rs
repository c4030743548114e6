use vstd::prelude::*;
use std::collections::HashMap;
use crate::errors::{ContractError, Fault};
use crate::lists::{lemma_without_address_contents, remove_address, without_address};
use crate::quorum::contains_address;
use crate::state::{lemma_pair_key_injective, pack_pair, pair_key, only_changed, AccessLists, Part, QuorumProofContract};
use crate::store::{list_at, only_key_set, set_at};
use crate::types::{Address, BlacklistEntry};

verus! {

broadcast use vstd::std_specs::hash::group_hash_axioms;

/// The list under `k` holds `x` once: unchanged when it already held `x`,
/// otherwise with `x` appended.
pub open spec fn added_once(olds: Map<u64, Vec<Address>>, news: Map<u64, Vec<Address>>, k: u64, x: Address) -> bool {
    &&& list_at(olds, k).contains(x) ==> news == olds
    &&& !list_at(olds, k).contains(x) ==> list_at(news, k) == list_at(olds, k).push(x) && only_key_set(olds, news, k)
}

/// The list under `k` without `x`: unchanged when it did not hold `x`.
pub open spec fn removed_from(olds: Map<u64, Vec<Address>>, news: Map<u64, Vec<Address>>, k: u64, x: Address) -> bool {
    &&& !list_at(olds, k).contains(x) ==> news == olds
    &&& list_at(olds, k).contains(x) ==> list_at(news, k) == without_address(list_at(olds, k), x) && only_key_set(olds, news, k)
}

/// Removing an address shortens the list exactly when the list holds it.
proof fn lemma_without_address_len(s: Seq<Address>, a: Address)
    ensures
        without_address(s, a).len() <= s.len(),
        without_address(s, a).len() < s.len() <==> s.contains(a),
    decreases s.len(),
{
    if s.len() > 0 {
        lemma_without_address_len(s.drop_last(), a);
        if s.drop_last().contains(a) {
            let i = choose|i: int| 0 <= i < s.drop_last().len() && s.drop_last()[i] == a;
            assert(s[i] == a);
        }
        if s.contains(a) && s.last() != a {
            let i = choose|i: int| 0 <= i < s.len() && s[i] == a;
            assert(s.drop_last()[i] == a);
        }
        if s.last() == a {
            assert(s[s.len() - 1] == a);
        }
    }
}

/// A list with `x` appended holds what it held, and `x`.
proof fn lemma_push_contents(s: Seq<Address>, x: Address)
    ensures
        forall|y: Address| #[trigger] s.push(x).contains(y) <==> s.contains(y) || y == x,
        s.no_duplicates() && !s.contains(x) ==> s.push(x).no_duplicates(),
{
    assert forall|y: Address| #[trigger] s.push(x).contains(y) <==> s.contains(y) || y == x by {
        if s.contains(y) {
            let i = choose|i: int| 0 <= i < s.len() && s[i] == y;
            assert(s.push(x)[i] == y);
        }
        if y == x {
            assert(s.push(x)[s.len() as int] == y);
        }
        if s.push(x).contains(y) && y != x {
            let i = choose|i: int| 0 <= i < s.len() + 1 && s.push(x)[i] == y;
            assert(s[i] == y);
        }
    }
}

/// One mirror list after blacklisting `(issuer, holder)`: the list under
/// `k(issuer, holder)` gains `v(issuer, holder)` and still mirrors the blacklist.
proof fn lemma_mirror_after_add(
    olds: Map<u64, Vec<Address>>,
    news: Map<u64, Vec<Address>>,
    obl: Map<u128, BlacklistEntry>,
    nbl: Map<u128, BlacklistEntry>,
    issuer: Address,
    holder: Address,
    by_issuer: bool,
)
    requires
        by_issuer ==> forall|i: Address, h: Address| #[trigger] list_at(olds, i.0).contains(h)
            <==> obl.contains_key(pair_key(i.0, h.0)),
        !by_issuer ==> forall|i: Address, h: Address| #[trigger] list_at(olds, h.0).contains(i)
            <==> obl.contains_key(pair_key(i.0, h.0)),
        forall|k: u64| #[trigger] list_at(olds, k).no_duplicates(),
        !obl.contains_key(pair_key(issuer.0, holder.0)),
        nbl.contains_key(pair_key(issuer.0, holder.0)),
        nbl.remove(pair_key(issuer.0, holder.0)) == obl.remove(pair_key(issuer.0, holder.0)),
        by_issuer ==> added_once(olds, news, issuer.0, holder),
        !by_issuer ==> added_once(olds, news, holder.0, issuer),
    ensures
        by_issuer ==> forall|i: Address, h: Address| #[trigger] list_at(news, i.0).contains(h)
            <==> nbl.contains_key(pair_key(i.0, h.0)),
        !by_issuer ==> forall|i: Address, h: Address| #[trigger] list_at(news, h.0).contains(i)
            <==> nbl.contains_key(pair_key(i.0, h.0)),
        forall|k: u64| #[trigger] list_at(news, k).no_duplicates(),
{
    let key = pair_key(issuer.0, holder.0);
    let (k0, x) = if by_issuer { (issuer.0, holder) } else { (holder.0, issuer) };
    assert(!list_at(olds, k0).contains(x)) by {
        if list_at(olds, k0).contains(x) {
            if by_issuer {
                assert(list_at(olds, issuer.0).contains(holder));
            } else {
                assert(list_at(olds, holder.0).contains(issuer));
            }
        }
    }
    lemma_push_contents(list_at(olds, k0), x);
    assert forall|k: u64| k != k0 implies #[trigger] list_at(news, k) == list_at(olds, k) by {
        assert(news.remove(k0).contains_key(k) == olds.remove(k0).contains_key(k));
        if olds.contains_key(k) {
            assert(news.remove(k0)[k] == olds.remove(k0)[k]);
        }
    }
    assert forall|k: u64| #[trigger] list_at(news, k).no_duplicates() by {
        if k != k0 {
            assert(list_at(news, k) == list_at(olds, k));
        }
    }
    assert forall|i: Address, h: Address| nbl.contains_key(#[trigger] pair_key(i.0, h.0))
        <==> obl.contains_key(pair_key(i.0, h.0)) || (i == issuer && h == holder) by {
        if pair_key(i.0, h.0) == key {
            lemma_pair_key_injective(i.0, h.0, issuer.0, holder.0);
        } else {
            assert(nbl.remove(key).contains_key(pair_key(i.0, h.0)) == obl.remove(key).contains_key(pair_key(i.0, h.0)));
        }
    }
    if by_issuer {
        assert forall|i: Address, h: Address| #[trigger] list_at(news, i.0).contains(h)
            <==> nbl.contains_key(pair_key(i.0, h.0)) by {
            assert(nbl.contains_key(pair_key(i.0, h.0)) <==> obl.contains_key(pair_key(i.0, h.0)) || (i == issuer && h == holder));
            assert(list_at(olds, i.0).contains(h) <==> obl.contains_key(pair_key(i.0, h.0)));
        }
    } else {
        assert forall|i: Address, h: Address| #[trigger] list_at(news, h.0).contains(i)
            <==> nbl.contains_key(pair_key(i.0, h.0)) by {
            assert(nbl.contains_key(pair_key(i.0, h.0)) <==> obl.contains_key(pair_key(i.0, h.0)) || (i == issuer && h == holder));
            assert(list_at(olds, h.0).contains(i) <==> obl.contains_key(pair_key(i.0, h.0)));
        }
    }
}

/// One mirror list after lifting `(issuer, holder)`: the list loses the
/// address and still mirrors the blacklist.
proof fn lemma_mirror_after_remove(
    olds: Map<u64, Vec<Address>>,
    news: Map<u64, Vec<Address>>,
    obl: Map<u128, BlacklistEntry>,
    nbl: Map<u128, BlacklistEntry>,
    issuer: Address,
    holder: Address,
    by_issuer: bool,
)
    requires
        by_issuer ==> forall|i: Address, h: Address| #[trigger] list_at(olds, i.0).contains(h)
            <==> obl.contains_key(pair_key(i.0, h.0)),
        !by_issuer ==> forall|i: Address, h: Address| #[trigger] list_at(olds, h.0).contains(i)
            <==> obl.contains_key(pair_key(i.0, h.0)),
        forall|k: u64| #[trigger] list_at(olds, k).no_duplicates(),
        obl.contains_key(pair_key(issuer.0, holder.0)),
        nbl == obl.remove(pair_key(issuer.0, holder.0)),
        by_issuer ==> removed_from(olds, news, issuer.0, holder),
        !by_issuer ==> removed_from(olds, news, holder.0, issuer),
    ensures
        by_issuer ==> forall|i: Address, h: Address| #[trigger] list_at(news, i.0).contains(h)
            <==> nbl.contains_key(pair_key(i.0, h.0)),
        !by_issuer ==> forall|i: Address, h: Address| #[trigger] list_at(news, h.0).contains(i)
            <==> nbl.contains_key(pair_key(i.0, h.0)),
        forall|k: u64| #[trigger] list_at(news, k).no_duplicates(),
{
    let key = pair_key(issuer.0, holder.0);
    let (k0, x) = if by_issuer { (issuer.0, holder) } else { (holder.0, issuer) };
    if by_issuer {
        assert(list_at(olds, issuer.0).contains(holder));
    } else {
        assert(list_at(olds, holder.0).contains(issuer));
    }
    lemma_without_address_contents(list_at(olds, k0), x);
    assert forall|k: u64| k != k0 implies #[trigger] list_at(news, k) == list_at(olds, k) by {
        assert(news.remove(k0).contains_key(k) == olds.remove(k0).contains_key(k));
        if olds.contains_key(k) {
            assert(news.remove(k0)[k] == olds.remove(k0)[k]);
        }
    }
    assert forall|k: u64| #[trigger] list_at(news, k).no_duplicates() by {
        if k != k0 {
            assert(list_at(news, k) == list_at(olds, k));
        }
    }
    assert forall|i: Address, h: Address| nbl.contains_key(#[trigger] pair_key(i.0, h.0))
        <==> obl.contains_key(pair_key(i.0, h.0)) && !(i == issuer && h == holder) by {
        if pair_key(i.0, h.0) == key {
            lemma_pair_key_injective(i.0, h.0, issuer.0, holder.0);
        }
    }
    if by_issuer {
        assert forall|i: Address, h: Address| #[trigger] list_at(news, i.0).contains(h)
            <==> nbl.contains_key(pair_key(i.0, h.0)) by {
            assert(nbl.contains_key(pair_key(i.0, h.0)) <==> obl.contains_key(pair_key(i.0, h.0)) && !(i == issuer && h == holder));
            assert(list_at(olds, i.0).contains(h) <==> obl.contains_key(pair_key(i.0, h.0)));
        }
    } else {
        assert forall|i: Address, h: Address| #[trigger] list_at(news, h.0).contains(i)
            <==> nbl.contains_key(pair_key(i.0, h.0)) by {
            assert(nbl.contains_key(pair_key(i.0, h.0)) <==> obl.contains_key(pair_key(i.0, h.0)) && !(i == issuer && h == holder));
            assert(list_at(olds, h.0).contains(i) <==> obl.contains_key(pair_key(i.0, h.0)));
        }
    }
}

/// Appends `x` to the list under `k` unless it is there already.
fn add_once(m: &mut HashMap<u64, Vec<Address>>, k: u64, x: Address)
    ensures
        added_once(old(m)@, final(m)@, k, x),
{
    let present = match m.get(&k) {
        Some(v) => contains_address(v, x),
        None => false,
    };
    if !present {
        let mut list = match m.remove(&k) {
            Some(v) => v,
            None => Vec::new(),
        };
        list.push(x);
        m.insert(k, list);
        assert(m@.remove(k) =~= old(m)@.remove(k));
    }
}

/// Drops `x` from the list under `k` when it is there.
fn remove_once(m: &mut HashMap<u64, Vec<Address>>, k: u64, x: Address)
    ensures
        removed_from(old(m)@, final(m)@, k, x),
{
    let empty: Vec<Address> = Vec::new();
    let list = match m.get(&k) {
        Some(v) => v,
        None => &empty,
    };
    assert(list@ == list_at(old(m)@, k));
    let kept = remove_address(list, x);
    proof {
        lemma_without_address_len(list@, x);
    }
    if kept.len() < list.len() {
        set_at(m, k, kept);
    }
}

impl QuorumProofContract {
    /// The issuer blacklists a holder at `now`, with a reason; the holder
    /// joins the issuer's list and the issuer the holder's.
    pub fn add_holder_to_blacklist(&mut self, now: u64, issuer: Address, holder: Address, reason: String) -> (r: Result<(), Fault>)
        requires
            old(self).wf(),
        ensures
            final(self).wf(),
            ({
                let failure = if old(self).config.paused {
                    Some(Fault::Contract(ContractError::ContractPaused))
                } else if old(self).is_blacklisted(issuer, holder) {
                    Some(Fault::Contract(ContractError::AlreadyBlacklisted))
                } else {
                    None
                };
                &&& r is Err <==> failure is Some
                &&& r matches Err(f) ==> failure == Some(f) && *final(self) == *old(self)
            }),
            r is Ok ==> {
                let e = final(self).lists.blacklist@[pair_key(issuer.0, holder.0)];
                &&& final(self).lists.blacklist@.contains_key(pair_key(issuer.0, holder.0))
                &&& final(self).lists.blacklist@.remove(pair_key(issuer.0, holder.0))
                    == old(self).lists.blacklist@.remove(pair_key(issuer.0, holder.0))
                &&& e.issuer == issuer && e.holder == holder && e.reason@ == reason@ && e.blacklisted_at == now
                &&& added_once(old(self).lists.issuer_blacklist@, final(self).lists.issuer_blacklist@, issuer.0, holder)
                &&& added_once(old(self).lists.holder_blacklists@, final(self).lists.holder_blacklists@, holder.0, issuer)
                &&& final(self).lists.whitelist == old(self).lists.whitelist
                &&& final(self).lists.issuer_whitelist == old(self).lists.issuer_whitelist
                &&& only_changed(*old(self), *final(self), set![Part::Lists])
            },
    {
        self.require_not_paused()?;
        if self.is_holder_blacklisted(issuer, holder) {
            return Err(Fault::Contract(ContractError::AlreadyBlacklisted));
        }
        let key = pack_pair(issuer.0, holder.0);
        self.lists.blacklist.insert(key, BlacklistEntry { issuer, holder, reason, blacklisted_at: now });
        proof {
            assert(self.lists.blacklist@.remove(key) =~= old(self).lists.blacklist@.remove(key));
        }
        add_once(&mut self.lists.issuer_blacklist, issuer.0, holder);
        add_once(&mut self.lists.holder_blacklists, holder.0, issuer);
        proof {
            let (ol, nl) = (old(self).lists, self.lists);
            lemma_mirror_after_add(ol.issuer_blacklist@, nl.issuer_blacklist@, ol.blacklist@, nl.blacklist@, issuer, holder, true);
            lemma_mirror_after_add(ol.holder_blacklists@, nl.holder_blacklists@, ol.blacklist@, nl.blacklist@, issuer, holder, false);
        }
        Ok(())
    }

    /// The issuer lifts its blacklisting of a holder.
    pub fn remove_holder_from_blacklist(&mut self, issuer: Address, holder: Address) -> (r: Result<(), Fault>)
        requires
            old(self).wf(),
        ensures
            final(self).wf(),
            ({
                let failure = if old(self).config.paused {
                    Some(Fault::Contract(ContractError::ContractPaused))
                } else if !old(self).is_blacklisted(issuer, holder) {
                    Some(Fault::Contract(ContractError::NotBlacklisted))
                } else {
                    None
                };
                &&& r is Err <==> failure is Some
                &&& r matches Err(f) ==> failure == Some(f) && *final(self) == *old(self)
            }),
            r is Ok ==> {
                &&& final(self).lists.blacklist@ == old(self).lists.blacklist@.remove(pair_key(issuer.0, holder.0))
                &&& removed_from(old(self).lists.issuer_blacklist@, final(self).lists.issuer_blacklist@, issuer.0, holder)
                &&& removed_from(old(self).lists.holder_blacklists@, final(self).lists.holder_blacklists@, holder.0, issuer)
                &&& final(self).lists.whitelist == old(self).lists.whitelist
                &&& final(self).lists.issuer_whitelist == old(self).lists.issuer_whitelist
                &&& only_changed(*old(self), *final(self), set![Part::Lists])
            },
    {
        self.require_not_paused()?;
        if !self.is_holder_blacklisted(issuer, holder) {
            return Err(Fault::Contract(ContractError::NotBlacklisted));
        }
        self.lists.blacklist.remove(&pack_pair(issuer.0, holder.0));
        remove_once(&mut self.lists.issuer_blacklist, issuer.0, holder);
        remove_once(&mut self.lists.holder_blacklists, holder.0, issuer);
        proof {
            let (ol, nl) = (old(self).lists, self.lists);
            lemma_mirror_after_remove(ol.issuer_blacklist@, nl.issuer_blacklist@, ol.blacklist@, nl.blacklist@, issuer, holder, true);
            lemma_mirror_after_remove(ol.holder_blacklists@, nl.holder_blacklists@, ol.blacklist@, nl.blacklist@, issuer, holder, false);
        }
        Ok(())
    }

    /// The holders the issuer has blacklisted.
    pub fn get_blacklisted_by_issuer(&self, issuer: Address) -> (t: &[Address])
        ensures
            t@ == list_at(self.lists.issuer_blacklist@, issuer.0),
    {
        match self.lists.issuer_blacklist.get(&issuer.0) {
            Some(v) => v.as_slice(),
            None => &[],
        }
    }

    /// The issuers that have blacklisted the holder.
    pub fn get_blacklist_entries_for_holder(&self, holder: Address) -> (t: &[Address])
        ensures
            t@ == list_at(self.lists.holder_blacklists@, holder.0),
    {
        match self.lists.holder_blacklists.get(&holder.0) {
            Some(v) => v.as_slice(),
            None => &[],
        }
    }

    /// The blacklist entry of (issuer, holder), if any.
    pub fn get_blacklist_entry(&self, issuer: Address, holder: Address) -> (e: Option<&BlacklistEntry>)
        ensures
            e == (if self.lists.blacklist@.contains_key(pair_key(issuer.0, holder.0)) {
                Some(&self.lists.blacklist@[pair_key(issuer.0, holder.0)])
            } else {
                None
            }),
    {
        self.lists.blacklist.get(&pack_pair(issuer.0, holder.0))
    }

    /// The issuer whitelists a holder, who joins the issuer's list once.
    pub fn add_holder_to_whitelist(&mut self, issuer: Address, holder: Address)
        ensures
            final(self).lists.whitelist@ == old(self).lists.whitelist@.insert(pair_key(issuer.0, holder.0), true),
            added_once(old(self).lists.issuer_whitelist@, final(self).lists.issuer_whitelist@, issuer.0, holder),
            final(self).lists.blacklist == old(self).lists.blacklist,
            final(self).lists.issuer_blacklist == old(self).lists.issuer_blacklist,
            final(self).lists.holder_blacklists == old(self).lists.holder_blacklists,
            only_changed(*old(self), *final(self), set![Part::Lists]),
    {
        self.lists.whitelist.insert(pack_pair(issuer.0, holder.0), true);
        add_once(&mut self.lists.issuer_whitelist, issuer.0, holder);
    }

    /// Whether the issuer has whitelisted the holder.
    pub fn is_holder_whitelisted(&self, issuer: Address, holder: Address) -> (b: bool)
        ensures
            b == (self.lists.whitelist@.contains_key(pair_key(issuer.0, holder.0))
                && self.lists.whitelist@[pair_key(issuer.0, holder.0)]),
    {
        match self.lists.whitelist.get(&pack_pair(issuer.0, holder.0)) {
            Some(b) => *b,
            None => false,
        }
    }

    /// The issuer drops a holder from its whitelist; the issuer's list is
    /// stored without the holder, even when it did not hold it.
    pub fn remove_holder_from_whitelist(&mut self, issuer: Address, holder: Address)
        ensures
            final(self).lists.whitelist@ == old(self).lists.whitelist@.remove(pair_key(issuer.0, holder.0)),
            list_at(final(self).lists.issuer_whitelist@, issuer.0) == without_address(
                list_at(old(self).lists.issuer_whitelist@, issuer.0), holder),
            only_key_set(old(self).lists.issuer_whitelist@, final(self).lists.issuer_whitelist@, issuer.0),
            final(self).lists.blacklist == old(self).lists.blacklist,
            final(self).lists.issuer_blacklist == old(self).lists.issuer_blacklist,
            final(self).lists.holder_blacklists == old(self).lists.holder_blacklists,
            only_changed(*old(self), *final(self), set![Part::Lists]),
    {
        self.lists.whitelist.remove(&pack_pair(issuer.0, holder.0));
        let empty: Vec<Address> = Vec::new();
        let list = match self.lists.issuer_whitelist.get(&issuer.0) {
            Some(v) => v,
            None => &empty,
        };
        assert(list@ == list_at(old(self).lists.issuer_whitelist@, issuer.0));
        let kept = remove_address(list, holder);
        set_at(&mut self.lists.issuer_whitelist, issuer.0, kept);
    }
}

} // verus!
