//! Pending updates of completed counts and the shadow they move to while
//! being written out.

use vstd::prelude::*;
use std::collections::BTreeMap;
use vstd::std_specs::iter::IteratorSpec;
use crate::tracker::{TorrentTracker, TrackerModel};
use crate::tracker::keyed::{HashKey, hash_key, key_bytes, key_of, lemma_walk, owned_entries};
use crate::tracker_objects::stats::{StatsEvent, with_counter};
use crate::tracker_objects::torrents::{
    hash_keys, model_add_torrents_update, model_remove_torrents_shadow,
    model_remove_torrents_update,
};
use crate::tracker_objects::whitelist::keyed_values;
use crate::udp::types::InfoHash;

verus! {

broadcast use vstd::std_specs::btree::group_btree_axioms;

/// Inserting the entries of `s` into `m` in turn.
pub open spec fn insert_all<V>(m: Map<HashKey, V>, s: Seq<(HashKey, V)>) -> Map<HashKey, V>
    decreases s.len(),
{
    if s.len() == 0 {
        m
    } else {
        insert_all(m, s.drop_last()).insert(s.last().0, s.last().1)
    }
}

/// Inserting every entry of a map, one by one in any order without repeats,
/// merges it in.
pub proof fn lemma_insert_all_union<V>(m: Map<HashKey, V>, u: Map<HashKey, V>, s: Seq<(HashKey, V)>)
    requires
        u.dom().finite(),
        s.len() == u.dom().len(),
        forall|i: int| #![trigger s[i]] 0 <= i < s.len() ==> u.contains_key(s[i].0) && u[s[i].0] == s[i].1,
        forall|i: int, j: int| #![trigger s[i], s[j]] 0 <= i < j < s.len() ==> s[i].0 != s[j].0,
    ensures
        insert_all(m, s) == m.union_prefer_right(u),
    decreases s.len(),
{
    if s.len() == 0 {
        assert(u.dom() =~= Set::empty()) by {
            if exists|k: HashKey| u.dom().contains(k) {
                let k = choose|k: HashKey| u.dom().contains(k);
                assert(u.dom().len() > 0);
            }
        }
        assert(m.union_prefer_right(u) =~= m);
    } else {
        let last = s.last();
        let init = s.drop_last();
        let u2 = u.remove(last.0);
        assert(u.contains_key(last.0));
        assert forall|i: int| #![trigger init[i]] 0 <= i < init.len() implies u2.contains_key(init[i].0)
            && u2[init[i].0] == init[i].1 by {
            assert(init[i] == s[i]);
            assert(s[i].0 != s[s.len() - 1].0);
        }
        assert forall|i: int, j: int| #![trigger init[i], init[j]] 0 <= i < j < init.len() implies init[i].0
            != init[j].0 by {
            assert(init[i] == s[i] && init[j] == s[j]);
        }
        lemma_insert_all_union(m, u2, init);
        assert(m.union_prefer_right(u2).insert(last.0, last.1) =~= m.union_prefer_right(u));
    }
}

/// Queuing the updates of `items` in turn; the pending count becomes the
/// number queued, once, at the end, and only when `items` is not empty.
pub open spec fn model_add_updates(m: TrackerModel, items: Seq<(HashKey, i64)>) -> TrackerModel {
    let updates = insert_all(m.updates, items);
    TrackerModel {
        updates,
        stats: with_counter(
            m.stats,
            StatsEvent::TorrentsUpdates,
            if items.len() == 0 { 0 } else { updates.len() as i64 },
        ),
        ..m
    }
}

/// Removing `ks` from a map in turn.
pub open spec fn remove_all<V>(m: Map<HashKey, V>, ks: Seq<HashKey>) -> Map<HashKey, V>
    decreases ks.len(),
{
    if ks.len() == 0 {
        m
    } else {
        remove_all(m, ks.drop_last()).remove(ks.last())
    }
}

/// Dropping the queued updates of `ks`; the pending count becomes the number
/// left, or zero when `ks` is empty.
pub open spec fn model_remove_updates(m: TrackerModel, ks: Seq<HashKey>) -> TrackerModel {
    let updates = remove_all(m.updates, ks);
    TrackerModel {
        updates,
        stats: with_counter(
            m.stats,
            StatsEvent::TorrentsUpdates,
            if ks.len() == 0 { 0 } else { updates.len() as i64 },
        ),
        ..m
    }
}

/// Putting a completed count into the shadow; the shadow count becomes its
/// size.
pub open spec fn model_add_shadow(m: TrackerModel, k: HashKey, completed: i64) -> TrackerModel {
    let shadow = m.shadow.insert(k, completed);
    TrackerModel {
        shadow,
        stats: with_counter(m.stats, StatsEvent::TorrentsShadow, shadow.len() as i64),
        ..m
    }
}

/// Moving every pending update into the shadow: the queue empties and its
/// count becomes zero; the shadow takes each update, over what it held for
/// the same torrent, and its count becomes its size when anything moved.
pub open spec fn model_transfer_updates(m: TrackerModel) -> TrackerModel {
    let shadow = m.shadow.union_prefer_right(m.updates);
    let s1 = if m.updates.len() > 0 {
        with_counter(m.stats, StatsEvent::TorrentsShadow, shadow.len() as i64)
    } else {
        m.stats
    };
    TrackerModel {
        updates: Map::empty(),
        shadow,
        stats: with_counter(s1, StatsEvent::TorrentsUpdates, 0),
        ..m
    }
}

impl TorrentTracker {
    /// Queues the completed count of `info_hash` for writing out.
    pub fn add_update(&mut self, info_hash: InfoHash, completed: i64)
        ensures
            final(self)@ == model_add_torrents_update(old(self)@, key_of(info_hash@), completed),
    {
        self.add_torrents_update(info_hash, completed);
    }

    /// Queues each update of `updates` in turn.
    pub fn add_updates(&mut self, updates: Vec<(InfoHash, i64)>)
        ensures
            final(self)@ == model_add_updates(old(self)@, keyed_values(updates@)),
    {
        let ghost m = self@;
        let ghost items = keyed_values(updates@);
        let mut update_count: usize = 0;
        let mut i: usize = 0;
        while i < updates.len()
            invariant
                i <= updates@.len(),
                items == keyed_values(updates@),
                self@ == (TrackerModel { updates: insert_all(m.updates, items.take(i as int)), ..m }),
                update_count == (if i == 0 { 0 } else { self.torrents_updates@.len() }),
            decreases updates@.len() - i,
        {
            let (info_hash, completed) = updates[i];
            let k = hash_key(&info_hash.0);
            proof {
                assert(items.take(i + 1).drop_last() =~= items.take(i as int));
                assert(items.take(i + 1).last() == (k, completed));
            }
            self.torrents_updates.insert(k, completed);
            update_count = self.torrents_updates.len();
            i = i + 1;
            assert(self@ =~= (TrackerModel { updates: insert_all(m.updates, items.take(i as int)), ..m }));
        }
        assert(items.take(updates@.len() as int) =~= items);
        self.stats.set(StatsEvent::TorrentsUpdates, update_count as i64);
        assert(self@ =~= model_add_updates(m, items));
    }

    /// The pending updates, in increasing hash order.
    pub fn get_update(&self) -> (r: Vec<(InfoHash, i64)>)
        ensures
            keyed_values(r@) == owned_entries(
                vstd::std_specs::btree::spec_btree_map_iter(&self.torrents_updates).remaining(),
            ),
    {
        entries_of(&self.torrents_updates)
    }

    /// Drops the queued update of `info_hash`.
    pub fn remove_update(&mut self, info_hash: InfoHash)
        ensures
            final(self)@ == model_remove_torrents_update(old(self)@, key_of(info_hash@)),
    {
        self.remove_torrents_update(info_hash);
    }

    /// Drops the queued updates of `hashes`.
    pub fn remove_updates(&mut self, hashes: Vec<InfoHash>)
        ensures
            final(self)@ == model_remove_updates(old(self)@, hash_keys(hashes@)),
    {
        let ghost m = self@;
        let ghost ks = hash_keys(hashes@);
        let mut update_count: usize = 0;
        let mut i: usize = 0;
        while i < hashes.len()
            invariant
                i <= hashes@.len(),
                ks == hash_keys(hashes@),
                self@ == (TrackerModel { updates: remove_all(m.updates, ks.take(i as int)), ..m }),
                update_count == (if i == 0 { 0 } else { self.torrents_updates@.len() }),
            decreases hashes@.len() - i,
        {
            let k = hash_key(&hashes[i].0);
            proof {
                assert(ks.take(i + 1).drop_last() =~= ks.take(i as int));
                assert(ks.take(i + 1).last() == k);
            }
            self.torrents_updates.remove(&k);
            update_count = self.torrents_updates.len();
            i = i + 1;
            assert(self@ =~= (TrackerModel { updates: remove_all(m.updates, ks.take(i as int)), ..m }));
        }
        assert(ks.take(hashes@.len() as int) =~= ks);
        self.stats.set(StatsEvent::TorrentsUpdates, update_count as i64);
        assert(self@ =~= model_remove_updates(m, ks));
    }

    /// Puts the completed count of `info_hash` into the shadow.
    pub fn add_shadow(&mut self, info_hash: InfoHash, completed: i64)
        ensures
            final(self)@ == model_add_shadow(old(self)@, key_of(info_hash@), completed),
    {
        let k = hash_key(&info_hash.0);
        self.torrents_shadow.insert(k, completed);
        let n = self.torrents_shadow.len();
        self.stats.set(StatsEvent::TorrentsShadow, n as i64);
        assert(self@ =~= model_add_shadow(old(self)@, k, completed));
    }

    /// Takes `info_hash` out of the shadow.
    pub fn remove_shadow(&mut self, info_hash: InfoHash)
        ensures
            final(self)@ == model_remove_torrents_shadow(old(self)@, key_of(info_hash@)),
    {
        self.remove_torrents_shadow(info_hash);
    }

    /// The shadow, in increasing hash order.
    pub fn get_shadow(&self) -> (r: Vec<(InfoHash, i64)>)
        ensures
            keyed_values(r@) == owned_entries(
                vstd::std_specs::btree::spec_btree_map_iter(&self.torrents_shadow).remaining(),
            ),
    {
        entries_of(&self.torrents_shadow)
    }

    /// Empties the shadow.
    pub fn clear_shadow(&mut self)
        ensures
            final(self)@ == (TrackerModel {
                shadow: Map::empty(),
                stats: with_counter(old(self)@.stats, StatsEvent::TorrentsShadow, 0),
                ..old(self)@
            }),
    {
        self.torrents_shadow.clear();
        self.stats.set(StatsEvent::TorrentsShadow, 0);
        assert(self@ =~= (TrackerModel {
            shadow: Map::empty(),
            stats: with_counter(old(self)@.stats, StatsEvent::TorrentsShadow, 0),
            ..old(self)@
        }));
    }

    /// Moves every pending update into the shadow; see
    /// `model_transfer_updates`.
    pub fn transfer_updates_to_shadow(&mut self)
        ensures
            final(self)@ == model_transfer_updates(old(self)@),
    {
        let ghost m = self@;
        let updates = entries_of(&self.torrents_updates);
        let ghost es = keyed_values(updates@);
        proof {
            let rem = vstd::std_specs::btree::spec_btree_map_iter(&self.torrents_updates).remaining();
            lemma_walk(&self.torrents_updates, rem);
            lemma_insert_all_union(m.shadow, m.updates, es);
        }
        self.torrents_updates.clear();
        let mut i: usize = 0;
        while i < updates.len()
            invariant
                i <= updates@.len(),
                es == keyed_values(updates@),
                es.len() == m.updates.len(),
                self@.updates == Map::<HashKey, i64>::empty(),
                self@.shadow == insert_all(m.shadow, es.take(i as int)),
                self@.stats == (if i == 0 {
                    m.stats
                } else {
                    with_counter(m.stats, StatsEvent::TorrentsShadow, self@.shadow.len() as i64)
                }),
                self@ == (TrackerModel { updates: self@.updates, shadow: self@.shadow, stats: self@.stats, ..m }),
            decreases updates@.len() - i,
        {
            let (info_hash, completed) = updates[i];
            proof {
                assert(es.take(i + 1).drop_last() =~= es.take(i as int));
                assert(es.take(i + 1).last() == (key_of(info_hash@), completed));
            }
            self.add_shadow(info_hash, completed);
            i = i + 1;
        }
        assert(es.take(updates@.len() as int) =~= es);
        self.stats.set(StatsEvent::TorrentsUpdates, 0);
        assert(self@ =~= model_transfer_updates(m));
    }
}

/// The entries of a map of completed counts, in increasing hash order.
pub fn entries_of(map: &BTreeMap<HashKey, i64>) -> (r: Vec<(InfoHash, i64)>)
    ensures
        keyed_values(r@) == owned_entries(vstd::std_specs::btree::spec_btree_map_iter(map).remaining()),
{
    let ghost rem = vstd::std_specs::btree::spec_btree_map_iter(map).remaining();
    let ghost w = owned_entries(rem);
    let mut r: Vec<(InfoHash, i64)> = Vec::new();
    for kv in it: map.iter()
        invariant
            rem == vstd::std_specs::btree::spec_btree_map_iter(map).remaining(),
            w == owned_entries(rem),
            it.seq() == rem,
            keyed_values(r@) == w.take(it.index() as int),
            it.index() == w.len() ==> keyed_values(r@) == w,
    {
        let ghost idx = it.index();
        let ghost old_r = r@;
        let b = key_bytes(*kv.0);
        r.push((InfoHash(b), *kv.1));
        assert(w[idx] == (*kv.0, *kv.1));
        assert(keyed_values(r@) =~= keyed_values(old_r).push((*kv.0, *kv.1)));
        assert(w.take(idx + 1) =~= w.take(idx).push(w[idx]));
        assert(w.take(w.len() as int) =~= w);
    }
    r
}

} // verus!
