//! Ordered maps keyed by 20-byte hashes.
//!
//! An info-hash or a peer id is 20 bytes compared byte by byte. Read as a
//! big-endian `(u64, u64, u32)`, the same bytes compare the same way, so a
//! `BTreeMap` keyed by that triple walks its entries in the order of the
//! hashes themselves.

use vstd::prelude::*;
use vstd::std_specs::iter::IteratorSpec;
use std::collections::BTreeMap;
use crate::codec::{
    get_u32, get_u64, lemma_u32_roundtrip, lemma_u64_roundtrip, put_u32, put_u64, u32_at,
    u32_be_bytes, u64_at, u64_be_bytes, array20,
};

verus! {

broadcast use vstd::std_specs::btree::group_btree_axioms;

/// A 20-byte hash read as three big-endian integers.
pub type HashKey = (u64, u64, u32);

/// The key of the 20 bytes `b`.
pub open spec fn key_of(b: Seq<u8>) -> HashKey {
    (u64_at(b, 0), u64_at(b, 8), u32_at(b, 16))
}

/// The 20 bytes whose key is `k`.
pub open spec fn bytes_of_key(k: HashKey) -> Seq<u8> {
    u64_be_bytes(k.0) + u64_be_bytes(k.1) + u32_be_bytes(k.2)
}

/// Reading the bytes of a key gives the key back.
pub proof fn lemma_key_roundtrip(k: HashKey)
    ensures
        bytes_of_key(k).len() == 20,
        key_of(bytes_of_key(k)) == k,
{
    let b = bytes_of_key(k);
    lemma_u64_roundtrip(Seq::empty(), k.0, u64_be_bytes(k.1) + u32_be_bytes(k.2));
    assert(b =~= Seq::<u8>::empty() + u64_be_bytes(k.0) + (u64_be_bytes(k.1) + u32_be_bytes(k.2)));
    lemma_u64_roundtrip(u64_be_bytes(k.0), k.1, u32_be_bytes(k.2));
    assert(b =~= u64_be_bytes(k.0) + u64_be_bytes(k.1) + u32_be_bytes(k.2));
    lemma_u32_roundtrip(u64_be_bytes(k.0) + u64_be_bytes(k.1), k.2, Seq::empty());
    assert(b =~= u64_be_bytes(k.0) + u64_be_bytes(k.1) + u32_be_bytes(k.2) + Seq::<u8>::empty());
}

proof fn lemma_u64_bytes_of_parts(b: Seq<u8>, at: int)
    requires
        0 <= at,
        at + 8 <= b.len(),
    ensures
        u64_be_bytes(u64_at(b, at)) == b.subrange(at, at + 8),
{
    let b0 = b[at];
    let b1 = b[at + 1];
    let b2 = b[at + 2];
    let b3 = b[at + 3];
    let b4 = b[at + 4];
    let b5 = b[at + 5];
    let b6 = b[at + 6];
    let b7 = b[at + 7];
    let x = u64_at(b, at);
    assert(x == ((b0 as u64) << 56u64) | ((b1 as u64) << 48u64) | ((b2 as u64) << 40u64) | ((
    b3 as u64) << 32u64) | ((b4 as u64) << 24u64) | ((b5 as u64) << 16u64) | ((b6 as u64) << 8u64)
        | (b7 as u64));
    assert({
        &&& (x >> 56u64) as u8 == b0
        &&& (x >> 48u64) as u8 == b1
        &&& (x >> 40u64) as u8 == b2
        &&& (x >> 32u64) as u8 == b3
        &&& (x >> 24u64) as u8 == b4
        &&& (x >> 16u64) as u8 == b5
        &&& (x >> 8u64) as u8 == b6
        &&& x as u8 == b7
    }) by (bit_vector)
        requires
            x == ((b0 as u64) << 56u64) | ((b1 as u64) << 48u64) | ((b2 as u64) << 40u64) | ((
            b3 as u64) << 32u64) | ((b4 as u64) << 24u64) | ((b5 as u64) << 16u64) | ((b6 as u64)
                << 8u64) | (b7 as u64),
    ;
    assert(u64_be_bytes(x) =~= b.subrange(at, at + 8));
}

proof fn lemma_u32_bytes_of_parts(b: Seq<u8>, at: int)
    requires
        0 <= at,
        at + 4 <= b.len(),
    ensures
        u32_be_bytes(u32_at(b, at)) == b.subrange(at, at + 4),
{
    let b0 = b[at];
    let b1 = b[at + 1];
    let b2 = b[at + 2];
    let b3 = b[at + 3];
    let x = u32_at(b, at);
    assert(x == ((b0 as u32) << 24u32) | ((b1 as u32) << 16u32) | ((b2 as u32) << 8u32) | (
    b3 as u32));
    assert({
        &&& (x >> 24u32) as u8 == b0
        &&& (x >> 16u32) as u8 == b1
        &&& (x >> 8u32) as u8 == b2
        &&& x as u8 == b3
    }) by (bit_vector)
        requires
            x == ((b0 as u32) << 24u32) | ((b1 as u32) << 16u32) | ((b2 as u32) << 8u32) | (
            b3 as u32),
    ;
    assert(u32_be_bytes(x) =~= b.subrange(at, at + 4));
}

/// Twenty bytes are the bytes of their key: distinct hashes have distinct
/// keys.
pub proof fn lemma_key_of_bytes(b: Seq<u8>)
    requires
        b.len() == 20,
    ensures
        bytes_of_key(key_of(b)) == b,
{
    lemma_u64_bytes_of_parts(b, 0);
    lemma_u64_bytes_of_parts(b, 8);
    lemma_u32_bytes_of_parts(b, 16);
    assert(b =~= b.subrange(0, 8) + b.subrange(8, 16) + b.subrange(16, 20));
}

/// The key of a 20-byte hash.
pub fn hash_key(bytes: &[u8; 20]) -> (k: HashKey)
    ensures
        k == key_of(bytes@),
{
    (get_u64(bytes, 0), get_u64(bytes, 8), get_u32(bytes, 16))
}

/// The 20-byte hash whose key is `k`.
pub fn key_bytes(k: HashKey) -> (b: [u8; 20])
    ensures
        b@ == bytes_of_key(k),
        key_of(b@) == k,
{
    let mut v: Vec<u8> = Vec::new();
    put_u64(&mut v, k.0);
    put_u64(&mut v, k.1);
    put_u32(&mut v, k.2);
    proof {
        lemma_key_roundtrip(k);
        assert(v@ =~= bytes_of_key(k));
    }
    let b = array20(v.as_slice(), 0);
    assert(b@ =~= bytes_of_key(k));
    b
}

/// The sum of `f` over the values of the finite map `m`.
pub open spec fn map_sum<K, V>(m: Map<K, V>, f: spec_fn(V) -> int) -> int
    decreases m.dom().len(),
    when m.dom().finite()
{
    if m.dom().len() == 0 {
        0
    } else {
        let k = m.dom().choose();
        f(m[k]) + map_sum(m.remove(k), f)
    }
}

/// Taking any one entry out of the sum leaves the sum of the rest.
pub proof fn lemma_map_sum_remove<K, V>(m: Map<K, V>, f: spec_fn(V) -> int, k: K)
    requires
        m.dom().finite(),
        m.dom().contains(k),
    ensures
        map_sum(m, f) == f(m[k]) + map_sum(m.remove(k), f),
    decreases m.dom().len(),
{
    let c = m.dom().choose();
    assert(m.dom().contains(c));
    if c != k {
        lemma_map_sum_remove(m.remove(c), f, k);
        lemma_map_sum_remove(m.remove(k), f, c);
        assert(m.remove(c).remove(k) =~= m.remove(k).remove(c));
    }
}

/// The sum over the empty map is zero; a key that is absent adds nothing
/// when removed.
pub proof fn lemma_map_sum_basics<K, V>(m: Map<K, V>, f: spec_fn(V) -> int, k: K)
    requires
        m.dom().finite(),
    ensures
        m.dom().len() == 0 ==> map_sum(m, f) == 0,
        !m.dom().contains(k) ==> map_sum(m.remove(k), f) == map_sum(m, f),
{
    if !m.dom().contains(k) {
        assert(m.remove(k) =~= m);
    }
}

/// Inserting an entry replaces the value that the key had, if any.
pub proof fn lemma_map_sum_insert<K, V>(m: Map<K, V>, f: spec_fn(V) -> int, k: K, v: V)
    requires
        m.dom().finite(),
    ensures
        map_sum(m.insert(k, v), f) == f(v) + map_sum(m.remove(k), f),
        m.dom().contains(k) ==> map_sum(m.insert(k, v), f) == map_sum(m, f) - f(m[k]) + f(v),
        !m.dom().contains(k) ==> map_sum(m.insert(k, v), f) == map_sum(m, f) + f(v),
{
    let m2 = m.insert(k, v);
    lemma_map_sum_remove(m2, f, k);
    assert(m2.remove(k) =~= m.remove(k));
    if m.dom().contains(k) {
        lemma_map_sum_remove(m, f, k);
    } else {
        lemma_map_sum_basics(m, f, k);
    }
}

/// Each value counted once where `f` is nonnegative: the sum is nonnegative.
pub proof fn lemma_map_sum_nonneg<K, V>(m: Map<K, V>, f: spec_fn(V) -> int)
    requires
        m.dom().finite(),
        forall|v: V| 0 <= #[trigger] f(v),
    ensures
        0 <= map_sum(m, f),
    decreases m.dom().len(),
{
    if m.dom().len() != 0 {
        let c = m.dom().choose();
        lemma_map_sum_nonneg(m.remove(c), f);
    }
}

/// The entries of a map walk, as owned pairs.
pub open spec fn owned_entries<K, V>(s: Seq<(&K, &V)>) -> Seq<(K, V)> {
    s.map_values(|p: (&K, &V)| (*p.0, *p.1))
}

/// The sum of `f` over the values of a sequence of entries.
pub open spec fn seq_sum<K, V>(s: Seq<(K, V)>, f: spec_fn(V) -> int) -> int
    decreases s.len(),
{
    if s.len() == 0 {
        0
    } else {
        seq_sum(s.drop_last(), f) + f(s.last().1)
    }
}

/// What walking a map yields: every entry once, and nothing else. `r` is
/// what the walk of `m` has left to yield before it starts.
pub proof fn lemma_walk<V>(m: &BTreeMap<HashKey, V>, r: Seq<(&HashKey, &V)>)
    requires
        r == vstd::std_specs::btree::spec_btree_map_iter(m).remaining(),
    ensures
        owned_entries(r).len() == m@.dom().len(),
        m@.dom().finite(),
        m@.len() == m.len(),
        forall|i: int|
            #![trigger owned_entries(r)[i]]
            0 <= i < owned_entries(r).len() ==> m@.contains_key(owned_entries(r)[i].0)
                && m@[owned_entries(r)[i].0] == owned_entries(r)[i].1,
        forall|i: int, j: int|
            #![trigger owned_entries(r)[i], owned_entries(r)[j]]
            0 <= i < j < owned_entries(r).len() ==> owned_entries(r)[i].0 != owned_entries(r)[j].0,
        forall|k: HashKey|
            #[trigger] m@.dom().contains(k) ==> exists|i: int|
                0 <= i < owned_entries(r).len() && #[trigger] owned_entries(r)[i].0 == k,
{
    let w = owned_entries(r);
    assert(m@.len() == m.len());
    assert forall|i: int| #![trigger w[i]] 0 <= i < w.len() implies m@.contains_key(w[i].0)
        && m@[w[i].0] == w[i].1 by {
        assert(m@.contains_key(*r[i].0));
    }
    let ks = w.map_values(|e: (HashKey, V)| e.0);
    assert forall|k: HashKey| #[trigger] m@.dom().contains(k) implies ks.contains(k) && exists|i: int|
        0 <= i < w.len() && #[trigger] w[i].0 == k by {
        assert(r.contains((&k, &m@[k])));
        let i = choose|i: int| 0 <= i < r.len() && r[i] == (&k, &m@[k]);
        assert(ks[i] == k);
        assert(w[i].0 == k);
    }
    assert forall|k: HashKey| ks.contains(k) implies #[trigger] m@.dom().contains(k) by {
        let i = choose|i: int| 0 <= i < ks.len() && ks[i] == k;
        assert(w[i].0 == k);
    }
    assert(ks.to_set() =~= m@.dom());
    ks.lemma_no_dup_set_cardinality();
    assert forall|i: int, j: int| #![trigger w[i], w[j]] 0 <= i < j < w.len() implies w[i].0
        != w[j].0 by {
        assert(ks[i] == w[i].0 && ks[j] == w[j].0);
    }
}

/// Summing along the walk of a map sums over the map.
pub proof fn lemma_entries_sum<V>(m: Map<HashKey, V>, s: Seq<(HashKey, V)>, f: spec_fn(V) -> int)
    requires
        m.dom().finite(),
        s.len() == m.dom().len(),
        forall|i: int| #![trigger s[i]] 0 <= i < s.len() ==> m.contains_key(s[i].0) && m[s[i].0] == s[i].1,
        forall|i: int, j: int| #![trigger s[i], s[j]] 0 <= i < j < s.len() ==> s[i].0 != s[j].0,
    ensures
        seq_sum(s, f) == map_sum(m, f),
    decreases s.len(),
{
    if s.len() == 0 {
        lemma_map_sum_basics(m, f, arbitrary());
    } else {
        let last = s.last();
        let init = s.drop_last();
        let m2 = m.remove(last.0);
        assert(m.contains_key(last.0));
        assert forall|i: int| #![trigger init[i]] 0 <= i < init.len() implies m2.contains_key(init[i].0)
            && m2[init[i].0] == init[i].1 by {
            assert(init[i] == s[i]);
            assert(s[i].0 != s[s.len() - 1].0);
        }
        assert forall|i: int, j: int| #![trigger init[i], init[j]] 0 <= i < j < init.len() implies init[i].0
            != init[j].0 by {
            assert(init[i] == s[i] && init[j] == s[j]);
        }
        lemma_entries_sum(m2, init, f);
        lemma_map_sum_remove(m, f, last.0);
    }
}

/// The sum of `f` over a walk that has gone `n` entries in, and one more.
pub proof fn lemma_seq_sum_step<K, V>(s: Seq<(K, V)>, f: spec_fn(V) -> int, n: int)
    requires
        0 <= n < s.len(),
    ensures
        seq_sum(s.take(n + 1), f) == seq_sum(s.take(n), f) + f(s[n].1),
{
    assert(s.take(n + 1).drop_last() =~= s.take(n));
}


/// The keys of `m`, each once, in increasing order.
pub fn key_list<V>(m: &BTreeMap<HashKey, V>) -> (r: Vec<HashKey>)
    ensures
        r@.to_set() == m@.dom(),
        r@.no_duplicates(),
        r@.len() == m@.dom().len(),
{
    let ghost rem = vstd::std_specs::btree::spec_keys_iter(m).remaining();
    let mut r: Vec<HashKey> = Vec::new();
    for k in it: m.keys()
        invariant
            rem == vstd::std_specs::btree::spec_keys_iter(m).remaining(),
            it.seq() == rem,
            r@ == rem.take(it.index() as int).map_values(|x: &HashKey| *x),
            it.index() == rem.len() ==> r@ == rem.map_values(|x: &HashKey| *x),
    {
        let ghost idx = it.index();
        r.push(*k);
        assert(rem.take(idx + 1).map_values(|x: &HashKey| *x) =~= rem.take(idx).map_values(
            |x: &HashKey| *x,
        ).push(*rem[idx]));
        assert(rem.take(rem.len() as int) =~= rem);
    }
    proof {
        assert(rem.map_values(|x: &HashKey| *x) =~= rem.unref());
    }
    r
}


/// The first `i + 1` items hold what the first `i` hold, and item `i`.
pub proof fn lemma_take_one_more<T>(s: Seq<T>, i: int)
    requires
        0 <= i < s.len(),
    ensures
        s.take(i + 1) == s.take(i).push(s[i]),
        forall|x: T| #[trigger] s.take(i + 1).contains(x) <==> (s.take(i).contains(x) || x == s[i]),
{
    assert(s.take(i + 1) =~= s.take(i).push(s[i]));
    assert forall|x: T| #[trigger] s.take(i + 1).contains(x) <==> (s.take(i).contains(x) || x == s[i]) by {
        if x == s[i] {
            assert(s.take(i + 1)[i] == x);
        }
        if s.take(i).contains(x) {
            let j = choose|j: int| 0 <= j < s.take(i).len() && #[trigger] s.take(i)[j] == x;
            assert(s.take(i + 1)[j] == x);
        }
        if s.take(i + 1).contains(x) {
            let j = choose|j: int| 0 <= j < s.take(i + 1).len() && #[trigger] s.take(i + 1)[j] == x;
            if j < i {
                assert(s.take(i)[j] == x);
            }
        }
    }
}

/// A sequence without duplicates does not hold its item `i` among the
/// items before it.
pub proof fn lemma_not_before<T>(s: Seq<T>, i: int)
    requires
        0 <= i < s.len(),
        s.no_duplicates(),
    ensures
        !s.take(i).contains(s[i]),
{
    if s.take(i).contains(s[i]) {
        let j = choose|j: int| 0 <= j < s.take(i).len() && #[trigger] s.take(i)[j] == s[i];
        assert(s[j] == s[i]);
    }
}

/// Every item of `s` is among its first `s.len()` items, and a list of the
/// keys of a domain holds exactly that domain.
pub proof fn lemma_all_taken<T>(s: Seq<T>, d: Set<T>)
    requires
        s.to_set() == d,
    ensures
        s.take(s.len() as int) == s,
        forall|x: T| #[trigger] s.contains(x) <==> d.contains(x),
{
    assert(s.take(s.len() as int) =~= s);
    assert forall|x: T| #[trigger] s.contains(x) <==> d.contains(x) by {
        assert(s.to_set().contains(x) <==> s.contains(x));
    }
}

} // verus!
