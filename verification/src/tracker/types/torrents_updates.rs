//! The queue of torrent changes waiting for the next flush to storage.

use vstd::prelude::*;
use std::collections::BTreeMap;
use vstd::std_specs::iter::IteratorSpec;
use crate::tracker::keyed::{HashKey, hash_key, key_bytes, key_of, owned_entries};
use crate::udp::types::InfoHash;

verus! {

broadcast use vstd::std_specs::btree::group_btree_axioms;

/// What to do with a torrent's counters at the next flush.
#[derive(PartialEq, Eq, Structural, Clone, Copy, Debug)]
pub enum UpdatesAction {
    Add,
    Remove,
    Update,
}

/// The counters of a torrent to write out.
#[derive(PartialEq, Eq, Structural, Clone, Copy, Debug)]
pub struct TorrentUpdateData {
    pub completed: i64,
    pub seeders: i64,
    pub leechers: i64,
}

/// A pending update: the sequence number that ordered it, the counters, and
/// what to do with them.
pub type PendingUpdate = (u128, TorrentUpdateData, UpdatesAction);

/// Torrent changes waiting for the next flush, one per torrent: a newer
/// change (by sequence number) replaces an older one, so the queue grows
/// with the torrents touched, not with the announces served.
pub struct TorrentUpdateQueue {
    pub updates: BTreeMap<HashKey, PendingUpdate>,
}

/// Queuing `p` for the torrent `k`: it takes a free slot, or replaces what
/// the slot holds when its sequence number is higher.
pub open spec fn queue_insert(m: Map<HashKey, PendingUpdate>, k: HashKey, p: PendingUpdate) -> Map<HashKey, PendingUpdate> {
    if m.contains_key(k) {
        if p.0 > m[k].0 {
            m.insert(k, p)
        } else {
            m
        }
    } else {
        m.insert(k, p)
    }
}

/// Queuing the entries of `s` in turn, and how many took a free slot.
pub open spec fn queue_insert_all(m: Map<HashKey, PendingUpdate>, s: Seq<(HashKey, PendingUpdate)>) -> (Map<HashKey, PendingUpdate>, int)
    decreases s.len(),
{
    if s.len() == 0 {
        (m, 0)
    } else {
        let (m1, n) = queue_insert_all(m, s.drop_last());
        (queue_insert(m1, s.last().0, s.last().1), n + if m1.contains_key(s.last().0) { 0int } else { 1int })
    }
}

/// The keys of a list of pending updates.
pub open spec fn keyed_updates(s: Seq<(InfoHash, PendingUpdate)>) -> Seq<(HashKey, PendingUpdate)> {
    s.map_values(|p: (InfoHash, PendingUpdate)| (key_of(p.0@), p.1))
}

impl TorrentUpdateQueue {
    /// An empty queue.
    pub fn new() -> (r: TorrentUpdateQueue)
        ensures
            r.updates@ == Map::<HashKey, PendingUpdate>::empty(),
    {
        TorrentUpdateQueue { updates: BTreeMap::new() }
    }

    /// Queues an update for `info_hash`, replacing a pending one with a lower
    /// sequence number. Says whether it took a new slot, so that a count of
    /// pending updates can follow it.
    pub fn insert(&mut self, seq: u128, info_hash: InfoHash, data: TorrentUpdateData, action: UpdatesAction) -> (r: bool)
        ensures
            final(self).updates@ == queue_insert(old(self).updates@, key_of(info_hash@), (seq, data, action)),
            r == !old(self).updates@.contains_key(key_of(info_hash@)),
    {
        let k = hash_key(&info_hash.0);
        self.insert_key(seq, k, data, action)
    }

    fn insert_key(&mut self, seq: u128, k: HashKey, data: TorrentUpdateData, action: UpdatesAction) -> (r: bool)
        ensures
            final(self).updates@ == queue_insert(old(self).updates@, k, (seq, data, action)),
            r == !old(self).updates@.contains_key(k),
    {
        let existing: Option<u128> = match self.updates.get(&k) {
            Some(p) => Some(p.0),
            None => None,
        };
        match existing {
            Some(old_seq) => {
                if seq > old_seq {
                    self.updates.insert(k, (seq, data, action));
                }
                false
            },
            None => {
                self.updates.insert(k, (seq, data, action));
                true
            },
        }
    }

    /// Removes and returns every pending update, in increasing hash order.
    pub fn drain(&mut self) -> (r: Vec<(InfoHash, PendingUpdate)>)
        ensures
            final(self).updates@ == Map::<HashKey, PendingUpdate>::empty(),
            keyed_updates(r@) == owned_entries(
                vstd::std_specs::btree::spec_btree_map_iter(&old(self).updates).remaining(),
            ),
            lists_entries(old(self).updates@, keyed_updates(r@)),
    {
        proof {
            crate::tracker::keyed::lemma_walk(
                &self.updates,
                vstd::std_specs::btree::spec_btree_map_iter(&self.updates).remaining(),
            );
        }
        let r = self.snapshot();
        self.updates.clear();
        r
    }

    /// Puts drained updates back after a failed flush, in the order given,
    /// skipping any torrent that has since been given a newer update.
    /// Returns how many took a free slot.
    pub fn restore(&mut self, updates: Vec<(InfoHash, PendingUpdate)>) -> (r: i64)
        requires
            updates@.len() <= i64::MAX,
        ensures
            (final(self).updates@, r as int) == queue_insert_all(old(self).updates@, keyed_updates(updates@)),
    {
        let ghost start = self.updates@;
        let ghost es = keyed_updates(updates@);
        let mut restored: i64 = 0;
        let mut i: usize = 0;
        while i < updates.len()
            invariant
                i <= updates@.len(),
                updates@.len() <= i64::MAX,
                es == keyed_updates(updates@),
                (self.updates@, restored as int) == queue_insert_all(start, es.take(i as int)),
                0 <= restored <= i,
            decreases updates@.len() - i,
        {
            let (info_hash, p) = updates[i];
            let k = hash_key(&info_hash.0);
            proof {
                assert(es.take(i + 1).drop_last() =~= es.take(i as int));
                assert(es.take(i + 1).last() == (k, p));
            }
            if self.insert_key(p.0, k, p.1, p.2) {
                restored = restored + 1;
            }
            i = i + 1;
        }
        assert(es.take(updates@.len() as int) =~= es);
        restored
    }

    /// A copy of the pending updates, in increasing hash order.
    pub fn snapshot(&self) -> (r: Vec<(InfoHash, PendingUpdate)>)
        ensures
            keyed_updates(r@) == owned_entries(
                vstd::std_specs::btree::spec_btree_map_iter(&self.updates).remaining(),
            ),
    {
        let ghost rem = vstd::std_specs::btree::spec_btree_map_iter(&self.updates).remaining();
        let ghost w = owned_entries(rem);
        let mut r: Vec<(InfoHash, PendingUpdate)> = Vec::new();
        for kv in it: self.updates.iter()
            invariant
                rem == vstd::std_specs::btree::spec_btree_map_iter(&self.updates).remaining(),
                w == owned_entries(rem),
                it.seq() == rem,
                keyed_updates(r@) == w.take(it.index() as int),
                it.index() == w.len() ==> keyed_updates(r@) == w,
        {
            let ghost idx = it.index();
            let ghost old_r = r@;
            let b = key_bytes(*kv.0);
            r.push((InfoHash(b), *kv.1));
            assert(w[idx] == (*kv.0, *kv.1));
            assert(keyed_updates(r@) =~= keyed_updates(old_r).push((*kv.0, *kv.1)));
            assert(w.take(idx + 1) =~= w.take(idx).push(w[idx]));
            assert(w.take(w.len() as int) =~= w);
        }
        r
    }

    /// Drops every pending update.
    pub fn clear(&mut self)
        ensures
            final(self).updates@ == Map::<HashKey, PendingUpdate>::empty(),
    {
        self.updates.clear();
    }

    /// The number of pending updates.
    pub fn len(&self) -> (r: usize)
        ensures
            r == self.updates@.len(),
    {
        self.updates.len()
    }

    /// Whether no update is pending.
    pub fn is_empty(&self) -> (r: bool)
        ensures
            r == (self.updates@.len() == 0),
    {
        self.updates.is_empty()
    }
}

impl Default for TorrentUpdateQueue {
    fn default() -> (r: Self)
        ensures
            r.updates@ == Map::<HashKey, PendingUpdate>::empty(),
    {
        Self::new()
    }
}

/// Queuing keeps one update per torrent: the count of pending updates grows
/// by one exactly when the insert took a new slot.
pub proof fn lemma_insert_counts_slots(m: Map<HashKey, PendingUpdate>, k: HashKey, p: PendingUpdate)
    requires
        m.dom().finite(),
    ensures
        queue_insert(m, k, p).len() == m.len() + if m.contains_key(k) { 0int } else { 1int },
        queue_insert(m, k, p).contains_key(k),
{
}

/// The update a torrent keeps is the one with the highest sequence number:
/// after queuing `p`, the slot holds a sequence number no lower than either.
pub proof fn lemma_insert_keeps_newest(m: Map<HashKey, PendingUpdate>, k: HashKey, p: PendingUpdate)
    ensures
        queue_insert(m, k, p)[k].0 >= p.0,
        m.contains_key(k) ==> queue_insert(m, k, p)[k].0 >= m[k].0,
        m.contains_key(k) && p.0 <= m[k].0 ==> queue_insert(m, k, p)[k] == m[k],
        forall|other: HashKey| other != k ==> #[trigger] queue_insert(m, k, p).contains_key(other) == m.contains_key(other),
{
}


/// Whether `s` lists the entries of `m`: each once, and nothing else.
pub open spec fn lists_entries(m: Map<HashKey, PendingUpdate>, s: Seq<(HashKey, PendingUpdate)>) -> bool {
    &&& forall|i: int| #![trigger s[i]] 0 <= i < s.len() ==> m.contains_key(s[i].0) && m[s[i].0] == s[i].1
    &&& forall|i: int, j: int| #![trigger s[i], s[j]] 0 <= i < j < s.len() ==> s[i].0 != s[j].0
    &&& forall|k: HashKey| #[trigger] m.contains_key(k) ==> exists|i: int| 0 <= i < s.len() && #[trigger] s[i].0 == k
}

/// Queuing the first `n` entries of a list of distinct keys into an empty
/// queue fills a new slot for each.
proof fn lemma_restore_prefix(m: Map<HashKey, PendingUpdate>, s: Seq<(HashKey, PendingUpdate)>, n: int)
    requires
        lists_entries(m, s),
        0 <= n <= s.len(),
    ensures
        queue_insert_all(Map::empty(), s.take(n)).1 == n,
        queue_insert_all(Map::empty(), s.take(n)).0 == Map::new(
            |k: HashKey| exists|i: int| 0 <= i < n && #[trigger] s[i].0 == k,
            |k: HashKey| m[k],
        ),
    decreases n,
{
    if n > 0 {
        lemma_restore_prefix(m, s, n - 1);
        assert(s.take(n).drop_last() =~= s.take(n - 1));
        assert(s.take(n).last() == s[n - 1]);
        let prev = queue_insert_all(Map::<HashKey, PendingUpdate>::empty(), s.take(n - 1)).0;
        assert(!prev.contains_key(s[n - 1].0)) by {
            if prev.contains_key(s[n - 1].0) {
                let i = choose|i: int| 0 <= i < n - 1 && #[trigger] s[i].0 == s[n - 1].0;
                assert(s[i].0 != s[n - 1].0);
            }
        }
        let target = Map::new(
            |k: HashKey| exists|i: int| 0 <= i < n && #[trigger] s[i].0 == k,
            |k: HashKey| m[k],
        );
        assert forall|k: HashKey| #[trigger] prev.insert(s[n - 1].0, s[n - 1].1).contains_key(k) == target.contains_key(k)
            by {
            if target.contains_key(k) {
                let i = choose|i: int| 0 <= i < n && #[trigger] s[i].0 == k;
                if i < n - 1 {
                    assert(prev.contains_key(k));
                }
            }
        }
        assert(prev.insert(s[n - 1].0, s[n - 1].1) =~= target);
    }
}

/// Putting back, into an empty queue, the updates drained from a queue gives
/// that queue back, each update taking a new slot.
pub proof fn lemma_restore_after_drain(m: Map<HashKey, PendingUpdate>, s: Seq<(HashKey, PendingUpdate)>)
    requires
        lists_entries(m, s),
    ensures
        queue_insert_all(Map::empty(), s) == (m, s.len() as int),
{
    lemma_restore_prefix(m, s, s.len() as int);
    assert(s.take(s.len() as int) =~= s);
    let r = queue_insert_all(Map::<HashKey, PendingUpdate>::empty(), s).0;
    assert forall|k: HashKey| #[trigger] r.contains_key(k) == m.contains_key(k) by {
        if r.contains_key(k) {
            let i = choose|i: int| 0 <= i < s.len() && #[trigger] s[i].0 == k;
        }
    }
    assert(r =~= m);
}

/// The torrents of `d` that `u` holds no update for.
pub open spec fn missing_from(d: Map<HashKey, PendingUpdate>, u: Map<HashKey, PendingUpdate>) -> Set<HashKey> {
    d.dom().filter(|k: HashKey| !u.contains_key(k))
}

/// The keys among the first `n` entries of `s` that `u` holds no update for.
spec fn missing_prefix(s: Seq<(HashKey, PendingUpdate)>, u: Map<HashKey, PendingUpdate>, n: int) -> Set<HashKey> {
    Set::new(|k: HashKey| !u.contains_key(k) && exists|i: int| 0 <= i < n && #[trigger] s[i].0 == k)
}

/// Queuing the first `n` drained entries over a queue `u` whose updates are
/// no older than the drained ones.
proof fn lemma_restore_newer_prefix(
    d: Map<HashKey, PendingUpdate>,
    s: Seq<(HashKey, PendingUpdate)>,
    u: Map<HashKey, PendingUpdate>,
    n: int,
)
    requires
        lists_entries(d, s),
        forall|k: HashKey| #[trigger] u.contains_key(k) && d.contains_key(k) ==> u[k].0 >= d[k].0,
        0 <= n <= s.len(),
    ensures
        queue_insert_all(u, s.take(n)).0 == Map::new(
            |k: HashKey| u.contains_key(k) || exists|i: int| 0 <= i < n && #[trigger] s[i].0 == k,
            |k: HashKey| if u.contains_key(k) { u[k] } else { d[k] },
        ),
        missing_prefix(s, u, n).finite(),
        queue_insert_all(u, s.take(n)).1 == missing_prefix(s, u, n).len(),
    decreases n,
{
    if n == 0 {
        assert(s.take(0) =~= Seq::<(HashKey, PendingUpdate)>::empty());
        assert(missing_prefix(s, u, 0) =~= Set::<HashKey>::empty());
        assert(queue_insert_all(u, s.take(0)).0 =~= Map::new(
            |k: HashKey| u.contains_key(k) || exists|i: int| 0 <= i < 0 && #[trigger] s[i].0 == k,
            |k: HashKey| if u.contains_key(k) { u[k] } else { d[k] },
        ));
    } else {
        lemma_restore_newer_prefix(d, s, u, n - 1);
        assert(s.take(n).drop_last() =~= s.take(n - 1));
        assert(s.take(n).last() == s[n - 1]);
        let prev = queue_insert_all(u, s.take(n - 1)).0;
        let x = s[n - 1].0;
        let p = s[n - 1].1;
        assert(d.contains_key(x) && d[x] == p);
        let target = Map::new(
            |k: HashKey| u.contains_key(k) || exists|i: int| 0 <= i < n && #[trigger] s[i].0 == k,
            |k: HashKey| if u.contains_key(k) { u[k] } else { d[k] },
        );
        assert(target.contains_key(x));
        let was_listed = exists|i: int| 0 <= i < n - 1 && #[trigger] s[i].0 == x;
        assert(!was_listed) by {
            if was_listed {
                let i = choose|i: int| 0 <= i < n - 1 && #[trigger] s[i].0 == x;
                assert(s[i].0 != s[n - 1].0);
            }
        }
        if u.contains_key(x) {
            assert(prev.contains_key(x));
            assert(prev[x] == u[x]);
            assert forall|k: HashKey| #[trigger] prev.contains_key(k) == target.contains_key(k) by {
                if target.contains_key(k) && !u.contains_key(k) {
                    let i = choose|i: int| 0 <= i < n && #[trigger] s[i].0 == k;
                    if i < n - 1 {
                        assert(prev.contains_key(k));
                    }
                }
            }
            assert(prev =~= target);
            assert(missing_prefix(s, u, n) =~= missing_prefix(s, u, n - 1));
        } else {
            assert(!prev.contains_key(x));
            assert forall|k: HashKey| #[trigger] prev.insert(x, p).contains_key(k) == target.contains_key(k) by {
                if target.contains_key(k) && !u.contains_key(k) && k != x {
                    let i = choose|i: int| 0 <= i < n && #[trigger] s[i].0 == k;
                    assert(i < n - 1);
                    assert(prev.contains_key(k));
                }
            }
            assert(prev.insert(x, p) =~= target);
            assert(!missing_prefix(s, u, n - 1).contains(x));
            assert(missing_prefix(s, u, n) =~= missing_prefix(s, u, n - 1).insert(x));
        }
    }
}

/// Putting drained updates back after newer ones were queued: every torrent
/// that was given an update since keeps it, every other drained update
/// comes back, and the count returned is the number of drained torrents
/// with no newer update. Here `d` is what the drain listed as `s`, and `u`
/// is the queue at the restore, whose updates are no older than the drained
/// ones of the same torrent, as their sequence numbers only grow.
pub proof fn lemma_restore_after_newer_inserts(
    d: Map<HashKey, PendingUpdate>,
    s: Seq<(HashKey, PendingUpdate)>,
    u: Map<HashKey, PendingUpdate>,
)
    requires
        lists_entries(d, s),
        forall|k: HashKey| #[trigger] u.contains_key(k) && d.contains_key(k) ==> u[k].0 >= d[k].0,
    ensures
        missing_from(d, u).finite(),
        queue_insert_all(u, s) == (d.union_prefer_right(u), missing_from(d, u).len() as int),
{
    lemma_restore_newer_prefix(d, s, u, s.len() as int);
    assert(s.take(s.len() as int) =~= s);
    let r = queue_insert_all(u, s).0;
    assert forall|k: HashKey| #[trigger] r.contains_key(k) == d.union_prefer_right(u).contains_key(k) by {
        if r.contains_key(k) && !u.contains_key(k) {
            let i = choose|i: int| 0 <= i < s.len() && #[trigger] s[i].0 == k;
        }
    }
    assert(r =~= d.union_prefer_right(u));
    assert forall|k: HashKey| #[trigger] missing_prefix(s, u, s.len() as int).contains(k) == missing_from(d, u).contains(k) by {
        if missing_prefix(s, u, s.len() as int).contains(k) {
            let i = choose|i: int| 0 <= i < s.len() && #[trigger] s[i].0 == k;
        }
    }
    assert(missing_prefix(s, u, s.len() as int) =~= missing_from(d, u));
}

} // verus!
