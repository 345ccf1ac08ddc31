//! Torrents: their counters, looking them up, adding and removing them.

use vstd::prelude::*;
use std::collections::BTreeMap;
use vstd::std_specs::iter::IteratorSpec;
use crate::common::TorrentPeer;
use crate::tracker::{TorrentTracker, TrackerModel, bump, bump_fits, fits_i64};
use crate::tracker::keyed::{HashKey, hash_key, key_bytes, key_of, owned_entries, lemma_walk};
use crate::tracker_objects::stats::{StatsEvent, with_counter};
use crate::udp::types::InfoHash;

verus! {

broadcast use vstd::std_specs::btree::group_btree_axioms;

/// The counters of a torrent.
#[derive(PartialEq, Eq, Structural, Clone, Copy, Debug)]
pub struct TorrentEntryItem {
    pub completed: i64,
    pub seeders: i64,
    pub leechers: i64,
}

impl TorrentEntryItem {
    /// A torrent that nobody has completed or joined.
    pub fn new() -> (r: TorrentEntryItem)
        ensures
            r == (TorrentEntryItem { completed: 0, seeders: 0, leechers: 0 }),
    {
        TorrentEntryItem { completed: 0, seeders: 0, leechers: 0 }
    }
}

impl Default for TorrentEntryItem {
    fn default() -> (r: Self)
        ensures
            r == (TorrentEntryItem { completed: 0, seeders: 0, leechers: 0 }),
    {
        Self::new()
    }
}

/// A torrent with its peers, as a lookup gives it.
#[derive(Clone, Debug)]
pub struct TorrentEntry {
    pub peers: BTreeMap<HashKey, TorrentPeer>,
    pub completed: i64,
    pub seeders: i64,
    pub leechers: i64,
}

/// A torrent with its peers, as plain values.
#[verifier::ext_equal]
pub struct TorrentEntryModel {
    pub peers: Map<HashKey, TorrentPeer>,
    pub completed: i64,
    pub seeders: i64,
    pub leechers: i64,
}

impl View for TorrentEntry {
    type V = TorrentEntryModel;

    open spec fn view(&self) -> TorrentEntryModel {
        TorrentEntryModel {
            peers: self.peers@,
            completed: self.completed,
            seeders: self.seeders,
            leechers: self.leechers,
        }
    }
}

/// The entry of a torrent that is not there: no peers, all counters zero.
pub open spec fn empty_entry() -> TorrentEntryModel {
    TorrentEntryModel { peers: Map::empty(), completed: 0, seeders: 0, leechers: 0 }
}

impl TorrentEntry {
    /// An entry with no peers and all counters zero.
    pub fn new() -> (r: TorrentEntry)
        ensures
            r@ == empty_entry(),
    {
        TorrentEntry { peers: BTreeMap::new(), completed: 0, seeders: 0, leechers: 0 }
    }
}

impl Default for TorrentEntry {
    fn default() -> (r: Self)
        ensures
            r@ == empty_entry(),
    {
        Self::new()
    }
}

/// A torrent as the API lists it: its hash in hex and its counters.
#[derive(Clone, Debug)]
pub struct GetTorrentsApi {
    pub info_hash: String,
    pub completed: i64,
    pub seeders: i64,
    pub leechers: i64,
}

/// The peers that `m` holds for the torrent `k`: none if it holds no list.
pub open spec fn model_peers(m: Map<HashKey, Map<HashKey, TorrentPeer>>, k: HashKey) -> Map<
    HashKey,
    TorrentPeer,
> {
    if m.contains_key(k) {
        m[k]
    } else {
        Map::empty()
    }
}

/// What looking up the torrent `k` gives.
pub open spec fn lookup_torrent(m: TrackerModel, k: HashKey) -> Option<TorrentEntryModel> {
    if m.torrents.contains_key(k) {
        Some(
            TorrentEntryModel {
                peers: model_peers(m.peers, k),
                completed: m.torrents[k].completed,
                seeders: m.torrents[k].seeders,
                leechers: m.torrents[k].leechers,
            },
        )
    } else {
        None
    }
}

/// An optional entry as plain values.
pub open spec fn entry_view(o: Option<TorrentEntry>) -> Option<TorrentEntryModel> {
    match o {
        Some(e) => Some(e@),
        None => None,
    }
}

/// Queuing the completed count of `k` for writing out; the pending count
/// becomes the number of queued torrents.
pub open spec fn model_add_torrents_update(m: TrackerModel, k: HashKey, completed: i64) -> TrackerModel {
    let updates = m.updates.insert(k, completed);
    TrackerModel {
        updates,
        stats: with_counter(m.stats, StatsEvent::TorrentsUpdates, updates.len() as i64),
        ..m
    }
}

/// Dropping the queued update of `k`.
pub open spec fn model_remove_torrents_update(m: TrackerModel, k: HashKey) -> TrackerModel {
    let updates = m.updates.remove(k);
    TrackerModel {
        updates,
        stats: with_counter(m.stats, StatsEvent::TorrentsUpdates, updates.len() as i64),
        ..m
    }
}

/// Dropping the update of `k` that is being written out.
pub open spec fn model_remove_torrents_shadow(m: TrackerModel, k: HashKey) -> TrackerModel {
    let shadow = m.shadow.remove(k);
    TrackerModel {
        shadow,
        stats: with_counter(m.stats, StatsEvent::TorrentsShadow, shadow.len() as i64),
        ..m
    }
}

/// Adding (or replacing) the torrent `k`: one more torrent is counted either
/// way, and a persistent tracker queues its completed count.
pub open spec fn model_add_torrent(m: TrackerModel, k: HashKey, item: TorrentEntryItem, persistent: bool) -> TrackerModel {
    let m1 = TrackerModel { torrents: m.torrents.insert(k, item), ..m };
    let m2 = if persistent {
        model_add_torrents_update(m1, k, item.completed)
    } else {
        m1
    };
    TrackerModel { stats: bump(m2.stats, StatsEvent::Torrents, 1), ..m2 }
}

/// Adding the torrents of `items` in turn.
pub open spec fn model_add_torrents(m: TrackerModel, items: Seq<(HashKey, TorrentEntryItem)>, persistent: bool) -> TrackerModel
    decreases items.len(),
{
    if items.len() == 0 {
        m
    } else {
        let m1 = model_add_torrents(m, items.drop_last(), persistent);
        let m2 = TrackerModel { torrents: m1.torrents.insert(items.last().0, items.last().1), ..m1 };
        if persistent {
            model_add_torrents_update(m2, items.last().0, items.last().1.completed)
        } else {
            m2
        }
    }
}

/// Removing the torrent `k` and its peers. When it was there, one torrent
/// fewer is counted and its seeders and leechers leave the totals; a
/// persistent tracker also drops its pending updates.
pub open spec fn model_remove_torrent(m: TrackerModel, k: HashKey, persistent: bool) -> TrackerModel {
    let removed = m.torrents.contains_key(k);
    let item = m.torrents[k];
    let m1 = TrackerModel { torrents: m.torrents.remove(k), peers: m.peers.remove(k), ..m };
    let m2 = if persistent {
        model_remove_torrents_shadow(model_remove_torrents_update(m1, k), k)
    } else {
        m1
    };
    let ds: int = if removed { -item.seeders } else { 0 };
    let dl: int = if removed { -item.leechers } else { 0 };
    let s1 = if removed { bump(m2.stats, StatsEvent::Torrents, -1) } else { m2.stats };
    let s2 = if ds != 0 { bump(s1, StatsEvent::Seeds, ds) } else { s1 };
    let s3 = if dl != 0 { bump(s2, StatsEvent::Peers, dl) } else { s2 };
    TrackerModel { stats: s3, ..m2 }
}

/// Whether removing the torrent `k` keeps every counter within `i64`.
pub open spec fn remove_torrent_fits(m: TrackerModel, k: HashKey) -> bool {
    m.torrents.contains_key(k) ==> {
        &&& bump_fits(m.stats, StatsEvent::Torrents, -1)
        &&& fits_i64(-m.torrents[k].seeders)
        &&& fits_i64(-m.torrents[k].leechers)
        &&& bump_fits(m.stats, StatsEvent::Seeds, -m.torrents[k].seeders)
        &&& bump_fits(m.stats, StatsEvent::Peers, -m.torrents[k].leechers)
    }
}

/// Removing, in turn, each torrent of `ks` that is there.
pub open spec fn model_remove_torrents(m: TrackerModel, ks: Seq<HashKey>, persistent: bool) -> TrackerModel
    decreases ks.len(),
{
    if ks.len() == 0 {
        m
    } else {
        let m1 = model_remove_torrents(m, ks.drop_last(), persistent);
        if m1.torrents.contains_key(ks.last()) {
            model_remove_torrent(m1, ks.last(), persistent)
        } else {
            m1
        }
    }
}

/// Whether removing the torrents of `ks` in turn keeps every counter within
/// `i64`.
pub open spec fn remove_torrents_fit(m: TrackerModel, ks: Seq<HashKey>, persistent: bool) -> bool
    decreases ks.len(),
{
    ks.len() == 0 || (remove_torrents_fit(m, ks.drop_last(), persistent) && remove_torrent_fits(
        model_remove_torrents(m, ks.drop_last(), persistent),
        ks.last(),
    ))
}

/// The keys of a list of hashes.
pub open spec fn hash_keys(hs: Seq<InfoHash>) -> Seq<HashKey> {
    hs.map_values(|h: InfoHash| key_of(h@))
}

/// The keys and items of a list of torrents.
pub open spec fn keyed_items(items: Seq<(InfoHash, TorrentEntryItem)>) -> Seq<(HashKey, TorrentEntryItem)> {
    items.map_values(|p: (InfoHash, TorrentEntryItem)| (key_of(p.0@), p.1))
}

/// The bounds for a list hold for each of its prefixes.
pub proof fn lemma_remove_torrents_fit_prefix(m: TrackerModel, ks: Seq<HashKey>, persistent: bool, n: int)
    requires
        0 <= n <= ks.len(),
        remove_torrents_fit(m, ks, persistent),
    ensures
        remove_torrents_fit(m, ks.take(n), persistent),
        n > 0 ==> remove_torrent_fits(model_remove_torrents(m, ks.take(n - 1), persistent), ks[n - 1]),
    decreases ks.len(),
{
    if n < ks.len() {
        lemma_remove_torrents_fit_prefix(m, ks.drop_last(), persistent, n);
        assert(ks.drop_last().take(n) =~= ks.take(n));
        if n > 0 {
            assert(ks.drop_last().take(n - 1) =~= ks.take(n - 1));
        }
    } else {
        assert(ks.take(n) =~= ks);
        if n > 0 {
            assert(ks.take(n - 1) =~= ks.drop_last());
        }
    }
}

impl TorrentTracker {
    /// Queues the completed count of the torrent `k` for writing out.
    pub(crate) fn queue_torrent_update(&mut self, k: HashKey, completed: i64)
        ensures
            final(self)@ == model_add_torrents_update(old(self)@, k, completed),
    {
        self.torrents_updates.insert(k, completed);
        let n = self.torrents_updates.len();
        self.stats.set(StatsEvent::TorrentsUpdates, n as i64);
        assert(final(self)@ =~= model_add_torrents_update(old(self)@, k, completed));
    }

    /// Queues the completed count of `info_hash` for writing out.
    pub fn add_torrents_update(&mut self, info_hash: InfoHash, completed: i64)
        ensures
            final(self)@ == model_add_torrents_update(old(self)@, key_of(info_hash@), completed),
    {
        let k = hash_key(&info_hash.0);
        self.queue_torrent_update(k, completed);
    }

    pub(crate) fn drop_torrent_update(&mut self, k: HashKey)
        ensures
            final(self)@ == model_remove_torrents_update(old(self)@, k),
    {
        self.torrents_updates.remove(&k);
        let n = self.torrents_updates.len();
        self.stats.set(StatsEvent::TorrentsUpdates, n as i64);
        assert(final(self)@ =~= model_remove_torrents_update(old(self)@, k));
    }

    /// Drops the queued update of `info_hash`.
    pub fn remove_torrents_update(&mut self, info_hash: InfoHash)
        ensures
            final(self)@ == model_remove_torrents_update(old(self)@, key_of(info_hash@)),
    {
        let k = hash_key(&info_hash.0);
        self.drop_torrent_update(k);
    }

    pub(crate) fn drop_torrent_shadow(&mut self, k: HashKey)
        ensures
            final(self)@ == model_remove_torrents_shadow(old(self)@, k),
    {
        self.torrents_shadow.remove(&k);
        let n = self.torrents_shadow.len();
        self.stats.set(StatsEvent::TorrentsShadow, n as i64);
        assert(final(self)@ =~= model_remove_torrents_shadow(old(self)@, k));
    }

    /// Drops the update of `info_hash` that is being written out.
    pub fn remove_torrents_shadow(&mut self, info_hash: InfoHash)
        ensures
            final(self)@ == model_remove_torrents_shadow(old(self)@, key_of(info_hash@)),
    {
        let k = hash_key(&info_hash.0);
        self.drop_torrent_shadow(k);
    }

    /// Adds or replaces a torrent.
    pub fn add_torrent(&mut self, info_hash: InfoHash, torrent_entry: TorrentEntryItem, persistent: bool)
        requires
            bump_fits(old(self).stats, StatsEvent::Torrents, 1),
        ensures
            final(self)@ == model_add_torrent(old(self)@, key_of(info_hash@), torrent_entry, persistent),
    {
        let k = hash_key(&info_hash.0);
        self.torrents.insert(k, torrent_entry);
        let ghost m1 = self@;
        assert(m1 =~= (TrackerModel { torrents: old(self)@.torrents.insert(k, torrent_entry), ..old(self)@ }));
        if persistent {
            self.queue_torrent_update(k, torrent_entry.completed);
        }
        self.stats.update(StatsEvent::Torrents, 1);
        assert(self@ =~= model_add_torrent(old(self)@, k, torrent_entry, persistent));
    }

    /// Adds or replaces each torrent of `torrents` in turn; the torrent
    /// count grows by the length of the list.
    pub fn add_torrents(&mut self, torrents: Vec<(InfoHash, TorrentEntryItem)>, persistent: bool)
        requires
            bump_fits(old(self).stats, StatsEvent::Torrents, torrents@.len() as i64 as int),
        ensures
            final(self)@ == (TrackerModel {
                stats: bump(
                    model_add_torrents(old(self)@, keyed_items(torrents@), persistent).stats,
                    StatsEvent::Torrents,
                    torrents@.len() as i64 as int,
                ),
                ..model_add_torrents(old(self)@, keyed_items(torrents@), persistent)
            }),
    {
        let ghost start = self@;
        let ghost items = keyed_items(torrents@);
        let mut i: usize = 0;
        while i < torrents.len()
            invariant
                i <= torrents@.len(),
                items == keyed_items(torrents@),
                self@ == model_add_torrents(start, items.take(i as int), persistent),
                self@.stats.torrents == start.stats.torrents,
                bump_fits(start.stats, StatsEvent::Torrents, torrents@.len() as i64 as int),
            decreases torrents@.len() - i,
        {
            let (info_hash, item) = torrents[i];
            let k = hash_key(&info_hash.0);
            proof {
                assert(items.take(i + 1).drop_last() =~= items.take(i as int));
                assert(items.take(i + 1).last() == (k, item));
            }
            self.torrents.insert(k, item);
            if persistent {
                self.queue_torrent_update(k, item.completed);
            }
            i = i + 1;
            assert(self@ =~= model_add_torrents(start, items.take(i as int), persistent));
        }
        assert(items.take(torrents@.len() as int) =~= items);
        let n = torrents.len();
        self.stats.update(StatsEvent::Torrents, n as i64);
        assert(self@ =~= (TrackerModel {
            stats: bump(
                model_add_torrents(start, items, persistent).stats,
                StatsEvent::Torrents,
                torrents@.len() as i64 as int,
            ),
            ..model_add_torrents(start, items, persistent)
        }));
    }

    /// The torrent `info_hash` with its peers, if the tracker has it.
    pub fn get_torrent(&self, info_hash: InfoHash) -> (r: Option<TorrentEntry>)
        ensures
            entry_view(r) == lookup_torrent(self@, key_of(info_hash@)),
    {
        let k = hash_key(&info_hash.0);
        self.entry_of(k)
    }

    pub(crate) fn entry_of(&self, k: HashKey) -> (r: Option<TorrentEntry>)
        ensures
            entry_view(r) == lookup_torrent(self@, k),
    {
        match self.torrents.get(&k) {
            None => None,
            Some(item) => {
                let peers = match self.peers.get(&k) {
                    None => BTreeMap::new(),
                    Some(list) => list.clone(),
                };
                let e = TorrentEntry {
                    peers,
                    completed: item.completed,
                    seeders: item.seeders,
                    leechers: item.leechers,
                };
                assert(e@ =~= lookup_torrent(self@, k)->0);
                Some(e)
            },
        }
    }

    /// Each torrent of `hashes` with its peers, or `None` where the tracker
    /// does not have it, in the order asked.
    pub fn get_torrents(&self, hashes: Vec<InfoHash>) -> (r: Vec<(InfoHash, Option<TorrentEntry>)>)
        ensures
            r@.len() == hashes@.len(),
            forall|i: int|
                0 <= i < hashes@.len() ==> (#[trigger] r@[i]).0 == hashes@[i] && entry_view(r@[i].1)
                    == lookup_torrent(self@, key_of(hashes@[i]@)),
    {
        let mut r: Vec<(InfoHash, Option<TorrentEntry>)> = Vec::new();
        let mut i: usize = 0;
        while i < hashes.len()
            invariant
                i <= hashes@.len(),
                r@.len() == i,
                forall|j: int|
                    0 <= j < i ==> (#[trigger] r@[j]).0 == hashes@[j] && entry_view(r@[j].1)
                        == lookup_torrent(self@, key_of(hashes@[j]@)),
            decreases hashes@.len() - i,
        {
            let h = hashes[i];
            let e = self.get_torrent(h);
            r.push((h, e));
            i = i + 1;
        }
        r
    }

    /// Up to `amount` torrents with their completed counts, in increasing
    /// hash order, after skipping the first `skip`.
    pub fn get_torrents_chunk(&self, skip: u64, amount: u64) -> (r: Vec<(InfoHash, i64)>)
        ensures
            ({
                let w = owned_entries(vstd::std_specs::btree::spec_btree_map_iter(&self.torrents).remaining());
                let lo: int = if skip < w.len() { skip as int } else { w.len() as int };
                let hi: int = if skip + amount < w.len() { skip + amount } else { w.len() as int };
                &&& r@.len() == hi - lo
                &&& forall|i: int|
                    0 <= i < r@.len() ==> key_of((#[trigger] r@[i]).0@) == w[lo + i].0 && r@[i].1
                        == w[lo + i].1.completed
            }),
    {
        let ghost rem = vstd::std_specs::btree::spec_btree_map_iter(&self.torrents).remaining();
        let ghost w = owned_entries(rem);
        proof {
            lemma_walk(&self.torrents, rem);
        }
        let mut r: Vec<(InfoHash, i64)> = Vec::new();
        let mut current_count: u64 = 0;
        let mut handled_count: u64 = 0;
        let ghost lo: int = if skip < w.len() { skip as int } else { w.len() as int };
        let ghost hi: int = if skip + amount < w.len() { skip + amount } else { w.len() as int };
        for kv in it: self.torrents.iter()
            invariant_except_break
                current_count == it.index(),
                handled_count == (if it.index() <= skip { 0 } else { it.index() - skip }),
                it.index() == w.len() ==> r@.len() == hi - lo,
            invariant
                rem == vstd::std_specs::btree::spec_btree_map_iter(&self.torrents).remaining(),
                w == owned_entries(rem),
                it.seq() == rem,
                w.len() == self.torrents@.len(),
                self.torrents@.len() == self.torrents.len(),
                lo == (if skip < w.len() { skip as int } else { w.len() as int }),
                hi == (if skip + amount < w.len() { skip + amount } else { w.len() as int }),
                handled_count <= amount,
                r@.len() == handled_count,
                forall|i: int|
                    0 <= i < r@.len() ==> key_of((#[trigger] r@[i]).0@) == w[lo + i].0 && r@[i].1
                        == w[lo + i].1.completed,
            ensures
                r@.len() == hi - lo,
                forall|i: int|
                    0 <= i < r@.len() ==> key_of((#[trigger] r@[i]).0@) == w[lo + i].0 && r@[i].1
                        == w[lo + i].1.completed,
        {
            if current_count < skip {
                current_count = current_count + 1;
            } else {
                if handled_count >= amount {
                    break;
                }
                let hash = InfoHash(key_bytes(*kv.0));
                r.push((hash, kv.1.completed));
                current_count = current_count + 1;
                handled_count = handled_count + 1;
            }
        }
        r
    }

    /// Removes a torrent and its peers; see `model_remove_torrent`.
    pub fn remove_torrent(&mut self, info_hash: InfoHash, persistent: bool)
        requires
            remove_torrent_fits(old(self)@, key_of(info_hash@)),
        ensures
            final(self)@ == model_remove_torrent(old(self)@, key_of(info_hash@), persistent),
    {
        let k = hash_key(&info_hash.0);
        self.remove_torrent_key(k, persistent);
    }

    pub(crate) fn remove_torrent_key(&mut self, k: HashKey, persistent: bool)
        requires
            remove_torrent_fits(old(self)@, k),
        ensures
            final(self)@ == model_remove_torrent(old(self)@, k, persistent),
    {
        let ghost m = self@;
        let mut removed_torrent = false;
        let mut remove_seeders: i64 = 0;
        let mut remove_leechers: i64 = 0;
        match self.torrents.remove(&k) {
            None => {},
            Some(item) => {
                removed_torrent = true;
                remove_seeders = remove_seeders - item.seeders;
                remove_leechers = remove_leechers - item.leechers;
            },
        }
        self.peers.remove(&k);
        assert(self@ =~= (TrackerModel { torrents: m.torrents.remove(k), peers: m.peers.remove(k), ..m }));
        if persistent {
            self.drop_torrent_update(k);
            self.drop_torrent_shadow(k);
        }
        if removed_torrent {
            self.stats.update(StatsEvent::Torrents, -1);
        }
        if remove_seeders != 0 {
            self.stats.update(StatsEvent::Seeds, remove_seeders);
        }
        if remove_leechers != 0 {
            self.stats.update(StatsEvent::Peers, remove_leechers);
        }
        assert(self@ =~= model_remove_torrent(m, k, persistent));
    }

    /// Removes, in turn, each torrent of `hashes` that the tracker has.
    pub fn remove_torrents(&mut self, hashes: Vec<InfoHash>, persistent: bool)
        requires
            remove_torrents_fit(old(self)@, hash_keys(hashes@), persistent),
        ensures
            final(self)@ == model_remove_torrents(old(self)@, hash_keys(hashes@), persistent),
    {
        let ghost start = self@;
        let ghost ks = hash_keys(hashes@);
        let mut i: usize = 0;
        while i < hashes.len()
            invariant
                i <= hashes@.len(),
                ks == hash_keys(hashes@),
                self@ == model_remove_torrents(start, ks.take(i as int), persistent),
                remove_torrents_fit(start, ks, persistent),
            decreases hashes@.len() - i,
        {
            let k = hash_key(&hashes[i].0);
            proof {
                assert(ks.take(i + 1).drop_last() =~= ks.take(i as int));
                assert(ks.take(i + 1).last() == k);
                lemma_remove_torrents_fit_prefix(start, ks, persistent, i + 1);
            }
            if self.torrents.contains_key(&k) {
                self.remove_torrent_key(k, persistent);
            }
            i = i + 1;
        }
        assert(ks.take(hashes@.len() as int) =~= ks);
    }
}

} // verus!
