use vstd::prelude::*;
use std::collections::HashMap;

verus! {

broadcast use vstd::std_specs::hash::group_hash_axioms;

/// The list stored under `k`, empty when nothing is stored.
pub open spec fn list_at<T>(m: Map<u64, Vec<T>>, k: u64) -> Seq<T> {
    if m.contains_key(k) { m[k]@ } else { Seq::empty() }
}

/// The list stored under a u32 key, empty when nothing is stored.
pub open spec fn list_at32<T>(m: Map<u32, Vec<T>>, k: u32) -> Seq<T> {
    if m.contains_key(k) { m[k]@ } else { Seq::empty() }
}

/// The counter stored under `k`, zero when nothing is stored.
pub open spec fn count_at(m: Map<u64, u64>, k: u64) -> int {
    if m.contains_key(k) { m[k] as int } else { 0 }
}

/// Reads the counter stored under `k`, zero when nothing is stored.
pub fn read_count(m: &HashMap<u64, u64>, k: u64) -> (c: u64)
    ensures
        c == count_at(m@, k),
{
    match m.get(&k) {
        Some(c) => *c,
        None => 0,
    }
}

/// `new` stores something under `k` and agrees with `old` on every other key.
pub open spec fn only_key_set<K, V>(old: Map<K, V>, new: Map<K, V>, k: K) -> bool {
    new.contains_key(k) && new.remove(k) == old.remove(k)
}

/// Appends `x` to the list under `k` (an absent list counts as empty).
pub fn push_at<T>(m: &mut HashMap<u64, Vec<T>>, k: u64, x: T)
    ensures
        list_at(final(m)@, k) == list_at(old(m)@, k).push(x),
        only_key_set(old(m)@, final(m)@, k),
{
    let mut v = match m.remove(&k) {
        Some(v) => v,
        None => Vec::new(),
    };
    v.push(x);
    m.insert(k, v);
    assert(final(m)@.remove(k) =~= old(m)@.remove(k));
}

/// Appends `x` to the list under the u32 key `k` (an absent list counts as empty).
pub fn push_at32<T>(m: &mut HashMap<u32, Vec<T>>, k: u32, x: T)
    ensures
        list_at32(final(m)@, k) == list_at32(old(m)@, k).push(x),
        only_key_set(old(m)@, final(m)@, k),
{
    let mut v = match m.remove(&k) {
        Some(v) => v,
        None => Vec::new(),
    };
    v.push(x);
    m.insert(k, v);
    assert(final(m)@.remove(k) =~= old(m)@.remove(k));
}

/// Replaces the list under `k`.
pub fn set_at<T>(m: &mut HashMap<u64, Vec<T>>, k: u64, v: Vec<T>)
    ensures
        list_at(final(m)@, k) == v@,
        only_key_set(old(m)@, final(m)@, k),
{
    m.insert(k, v);
    assert(final(m)@.remove(k) =~= old(m)@.remove(k));
}

/// Copies a byte string.
pub fn copy_bytes(v: &Vec<u8>) -> (r: Vec<u8>)
    ensures
        r@ == v@,
{
    let r = v.clone();
    assert(r@ =~= v@);
    r
}

/// `x * y`, saturating at `u32::MAX`.
pub open spec fn sat_mul32(x: int, y: int) -> int {
    if x * y <= u32::MAX { x * y } else { u32::MAX as int }
}

/// Page `page` (counted from 1) of `page_size` entries: the entries from
/// `(page - 1) * page_size` on, up to `page_size` of them, both ends
/// computed in u32 with saturation and cut at the end of the list.
pub open spec fn page_of<T>(s: Seq<T>, page: u32, page_size: u32) -> Seq<T> {
    let start = sat_mul32(page - 1, page_size as int);
    let end = if start + page_size <= u32::MAX { start + page_size } else { u32::MAX as int };
    let lo = if start <= s.len() { start } else { s.len() as int };
    let hi = if end <= s.len() { end } else { s.len() as int };
    s.subrange(lo, hi)
}

/// Copies page `page` (at least 1) of `page_size` entries out of `s`.
pub fn copy_page<T: Copy>(s: &Vec<T>, page: u32, page_size: u32) -> (r: Vec<T>)
    requires
        page >= 1,
    ensures
        r@ == page_of(s@, page, page_size),
{
    let a: u64 = (page - 1) as u64;
    let b: u64 = page_size as u64;
    assert(a * b <= u64::MAX) by (nonlinear_arith)
        requires
            a <= u32::MAX,
            b <= u32::MAX,
    ;
    let product: u64 = a * b;
    let start: u32 = if product <= u32::MAX as u64 { product as u32 } else { u32::MAX };
    let end: u32 = start.saturating_add(page_size);
    let lo: usize = if (start as usize) <= s.len() { start as usize } else { s.len() };
    let hi: usize = if (end as usize) <= s.len() { end as usize } else { s.len() };
    let mut out: Vec<T> = Vec::new();
    let mut i: usize = lo;
    while i < hi
        invariant
            lo <= i <= hi,
            hi <= s.len(),
            out@ == s@.subrange(lo as int, i as int),
        decreases hi - i,
    {
        out.push(s[i]);
        i += 1;
        assert(out@ =~= s@.subrange(lo as int, i as int));
    }
    out
}

} // verus!
