//! Peers: an announce adds or updates a peer, a stop or a timeout removes
//! it, and each move between seeding and leeching is counted.

use vstd::prelude::*;
use std::collections::BTreeMap;
use crate::common::TorrentPeer;
use crate::tracker::{TorrentTracker, TrackerModel, bump, bump_fits, fits_i64};
use crate::tracker::keyed::{
    HashKey, hash_key, key_bytes, key_list, key_of, lemma_all_taken, lemma_entries_sum,
    lemma_not_before, lemma_seq_sum_step, lemma_take_one_more, lemma_walk, map_sum, owned_entries,
    seq_sum,
};
use vstd::std_specs::iter::IteratorSpec;
use crate::tracker_objects::stats::{Stats, StatsEvent, counter};
use crate::tracker_objects::torrents::{
    TorrentEntry, TorrentEntryItem, TorrentEntryModel, empty_entry, model_add_torrents_update,
    model_peers,
};
use crate::udp::types::{InfoHash, PeerId};

verus! {

broadcast use vstd::std_specs::btree::group_btree_axioms;

/// How one announce moves a torrent's counts.
pub struct PeerChange {
    pub added_seeder: bool,
    pub added_leecher: bool,
    pub removed_seeder: bool,
    pub removed_leecher: bool,
    pub completed_applied: bool,
}

/// No move at all.
pub open spec fn no_change() -> PeerChange {
    PeerChange {
        added_seeder: false,
        added_leecher: false,
        removed_seeder: false,
        removed_leecher: false,
        completed_applied: false,
    }
}

/// How announcing `peer` moves the counts, when the tracker had `old` for
/// that peer. A new peer is a seeder or a leecher by what it has left; a
/// known peer moves only when it turns from one into the other. A download
/// counts as completed when the peer becomes a seeder with the completed
/// event.
pub open spec fn add_peer_change(old: Option<TorrentPeer>, peer: TorrentPeer, completed: bool) -> PeerChange {
    match old {
        None => if peer.is_seed() {
            PeerChange { added_seeder: true, completed_applied: completed, ..no_change() }
        } else {
            PeerChange { added_leecher: true, ..no_change() }
        },
        Some(o) => if o.is_seed() && !peer.is_seed() {
            PeerChange { removed_seeder: true, added_leecher: true, ..no_change() }
        } else if !o.is_seed() && peer.is_seed() {
            PeerChange {
                added_seeder: true,
                removed_leecher: true,
                completed_applied: completed,
                ..no_change()
            }
        } else {
            no_change()
        },
    }
}

pub open spec fn one_if(b: bool) -> int {
    if b {
        1
    } else {
        0
    }
}

/// The counters of a torrent after a move.
pub open spec fn changed_item(item: TorrentEntryItem, c: PeerChange) -> TorrentEntryItem {
    TorrentEntryItem {
        completed: (item.completed + one_if(c.completed_applied)) as i64,
        seeders: (item.seeders + one_if(c.added_seeder) - one_if(c.removed_seeder)) as i64,
        leechers: (item.leechers + one_if(c.added_leecher) - one_if(c.removed_leecher)) as i64,
    }
}

/// The totals after a move.
pub open spec fn changed_stats(s: Stats, c: PeerChange) -> Stats {
    let s1 = if c.added_seeder { bump(s, StatsEvent::Seeds, 1) } else { s };
    let s2 = if c.added_leecher { bump(s1, StatsEvent::Peers, 1) } else { s1 };
    let s3 = if c.removed_seeder { bump(s2, StatsEvent::Seeds, -1) } else { s2 };
    let s4 = if c.removed_leecher { bump(s3, StatsEvent::Peers, -1) } else { s3 };
    if c.completed_applied { bump(s4, StatsEvent::Completed, 1) } else { s4 }
}

/// Whether a move keeps the torrent's counters and the totals within `i64`.
pub open spec fn change_fits(item: TorrentEntryItem, s: Stats, c: PeerChange) -> bool {
    &&& fits_i64(item.completed + one_if(c.completed_applied))
    &&& fits_i64(item.seeders + one_if(c.added_seeder))
    &&& fits_i64(item.seeders - one_if(c.removed_seeder))
    &&& fits_i64(item.leechers + one_if(c.added_leecher))
    &&& fits_i64(item.leechers - one_if(c.removed_leecher))
    &&& bump_fits(s, StatsEvent::Seeds, one_if(c.added_seeder))
    &&& bump_fits(s, StatsEvent::Seeds, -one_if(c.removed_seeder))
    &&& bump_fits(s, StatsEvent::Peers, one_if(c.added_leecher))
    &&& bump_fits(s, StatsEvent::Peers, -one_if(c.removed_leecher))
    &&& bump_fits(s, StatsEvent::Completed, one_if(c.completed_applied))
}

/// The peer that a list holds under `pk`, if any.
pub open spec fn peer_in(list: Map<HashKey, TorrentPeer>, pk: HashKey) -> Option<TorrentPeer> {
    if list.contains_key(pk) {
        Some(list[pk])
    } else {
        None
    }
}

/// The move that announcing `peer` to the torrent `k` makes.
pub open spec fn announce_change(m: TrackerModel, k: HashKey, pk: HashKey, peer: TorrentPeer, completed: bool) -> PeerChange {
    add_peer_change(peer_in(model_peers(m.peers, k), pk), peer, completed)
}

/// Announcing `peer` under the id `pk` to the torrent `k`, and the entry
/// returned. An unknown torrent is left alone and an empty entry returned.
/// A known one records the peer and its move; the returned entry shows the
/// completed count only to a persistent tracker. A persistent tracker queues
/// the returned completed count when the announce says completed.
pub open spec fn model_add_peer(
    m: TrackerModel,
    k: HashKey,
    pk: HashKey,
    peer: TorrentPeer,
    completed: bool,
    persistent: bool,
) -> (TrackerModel, TorrentEntryModel) {
    if !m.torrents.contains_key(k) {
        let m2 = if persistent && completed {
            model_add_torrents_update(m, k, 0)
        } else {
            m
        };
        (m2, empty_entry())
    } else {
        let list = model_peers(m.peers, k).insert(pk, peer);
        let c = announce_change(m, k, pk, peer, completed);
        let item = changed_item(m.torrents[k], c);
        let entry = TorrentEntryModel {
            peers: list,
            completed: if persistent { item.completed } else { 0 },
            seeders: item.seeders,
            leechers: item.leechers,
        };
        let m1 = TrackerModel {
            torrents: m.torrents.insert(k, item),
            peers: m.peers.insert(k, list),
            ..m
        };
        let m2 = if persistent && completed {
            model_add_torrents_update(m1, k, entry.completed)
        } else {
            m1
        };
        (TrackerModel { stats: changed_stats(m2.stats, c), ..m2 }, entry)
    }
}

/// Whether announcing keeps every counter within `i64`.
pub open spec fn add_peer_fits(m: TrackerModel, k: HashKey, pk: HashKey, peer: TorrentPeer, completed: bool) -> bool {
    m.torrents.contains_key(k) ==> change_fits(
        m.torrents[k],
        m.stats,
        announce_change(m, k, pk, peer, completed),
    )
}

/// Taking the peer `pk` out of the torrent `k`, without the totals: the new
/// state, whether a seeder left, whether a leecher left, and the entry
/// returned. The torrent's list goes when it empties; a tracker that is not
/// persistent forgets the torrent itself.
pub open spec fn remove_peer_step(m: TrackerModel, k: HashKey, pk: HashKey, persistent: bool) -> (
    TrackerModel,
    bool,
    bool,
    TorrentEntryModel,
) {
    if !m.torrents.contains_key(k) {
        (m, false, false, empty_entry())
    } else {
        let list = model_peers(m.peers, k);
        let item = m.torrents[k];
        let present = list.contains_key(pk);
        let seed = present && list[pk].is_seed();
        let leech = present && !list[pk].is_seed();
        let list2 = if present { list.remove(pk) } else { list };
        let item2 = TorrentEntryItem {
            completed: item.completed,
            seeders: (item.seeders - one_if(seed)) as i64,
            leechers: (item.leechers - one_if(leech)) as i64,
        };
        let peers2 = if list2.len() == 0 {
            m.peers.remove(k)
        } else {
            m.peers.insert(k, list2)
        };
        let torrents2 = if persistent {
            m.torrents.insert(k, item2)
        } else {
            m.torrents.insert(k, item2).remove(k)
        };
        let entry = TorrentEntryModel {
            peers: list2,
            completed: item2.completed,
            seeders: item2.seeders,
            leechers: item2.leechers,
        };
        (TrackerModel { torrents: torrents2, peers: peers2, ..m }, seed, leech, entry)
    }
}

/// Whether taking the peer out keeps the torrent's counters within `i64`.
pub open spec fn remove_step_fits(m: TrackerModel, k: HashKey, pk: HashKey) -> bool {
    m.torrents.contains_key(k) && model_peers(m.peers, k).contains_key(pk) ==> {
        &&& fits_i64(m.torrents[k].seeders - 1)
        &&& fits_i64(m.torrents[k].leechers - 1)
    }
}

/// Removing the peer `pk` from the torrent `k`, and the entry returned: a
/// seeder or a leecher fewer in the totals when it was there.
pub open spec fn model_remove_peer(m: TrackerModel, k: HashKey, pk: HashKey, persistent: bool) -> (
    TrackerModel,
    TorrentEntryModel,
) {
    let (m1, seed, leech, entry) = remove_peer_step(m, k, pk, persistent);
    let s1 = if seed { bump(m1.stats, StatsEvent::Seeds, -1) } else { m1.stats };
    let s2 = if leech { bump(s1, StatsEvent::Peers, -1) } else { s1 };
    (TrackerModel { stats: s2, ..m1 }, entry)
}

/// Whether removing the peer keeps every counter within `i64`.
pub open spec fn remove_peer_fits(m: TrackerModel, k: HashKey, pk: HashKey) -> bool {
    &&& remove_step_fits(m, k, pk)
    &&& bump_fits(m.stats, StatsEvent::Seeds, -1)
    &&& bump_fits(m.stats, StatsEvent::Peers, -1)
}

/// Taking out each pair of `pairs` in turn, without the totals: the state,
/// how many seeders and leechers left, and the pairs that were there.
pub open spec fn remove_peers_steps(m: TrackerModel, pairs: Seq<(HashKey, HashKey)>, persistent: bool) -> (
    TrackerModel,
    int,
    int,
    Seq<(HashKey, HashKey)>,
)
    decreases pairs.len(),
{
    if pairs.len() == 0 {
        (m, 0, 0, Seq::empty())
    } else {
        let (m1, seeds, leechers, removed) = remove_peers_steps(m, pairs.drop_last(), persistent);
        let (k, pk) = pairs.last();
        let (m2, seed, leech, _e) = remove_peer_step(m1, k, pk, persistent);
        (
            m2,
            seeds + one_if(seed),
            leechers + one_if(leech),
            if seed || leech { removed.push((k, pk)) } else { removed },
        )
    }
}

/// Removing each pair of `pairs` in turn, and the pairs that were there; the
/// seeders and leechers that left come off the totals at the end.
pub open spec fn model_remove_peers(m: TrackerModel, pairs: Seq<(HashKey, HashKey)>, persistent: bool) -> (
    TrackerModel,
    Seq<(HashKey, HashKey)>,
) {
    let (m1, seeds, leechers, removed) = remove_peers_steps(m, pairs, persistent);
    let s1 = if seeds != 0 { bump(m1.stats, StatsEvent::Seeds, -seeds) } else { m1.stats };
    let s2 = if leechers != 0 { bump(s1, StatsEvent::Peers, -leechers) } else { s1 };
    (TrackerModel { stats: s2, ..m1 }, removed)
}

/// Whether each step keeps the torrents' counters within `i64`.
pub open spec fn remove_steps_fit(m: TrackerModel, pairs: Seq<(HashKey, HashKey)>, persistent: bool) -> bool
    decreases pairs.len(),
{
    pairs.len() == 0 || (remove_steps_fit(m, pairs.drop_last(), persistent) && remove_step_fits(
        remove_peers_steps(m, pairs.drop_last(), persistent).0,
        pairs.last().0,
        pairs.last().1,
    ))
}

/// Whether removing the pairs keeps every counter within `i64`.
pub open spec fn remove_peers_fit(m: TrackerModel, pairs: Seq<(HashKey, HashKey)>, persistent: bool) -> bool {
    &&& pairs.len() <= i64::MAX
    &&& remove_steps_fit(m, pairs, persistent)
    &&& bump_fits(m.stats, StatsEvent::Seeds, -remove_peers_steps(m, pairs, persistent).1)
    &&& bump_fits(m.stats, StatsEvent::Peers, -remove_peers_steps(m, pairs, persistent).2)
}

/// The keys of a list of (torrent, peer) pairs.
pub open spec fn pair_keys(pairs: Seq<(InfoHash, PeerId)>) -> Seq<(HashKey, HashKey)> {
    pairs.map_values(|p: (InfoHash, PeerId)| (key_of(p.0@), key_of(p.1@)))
}

/// The counts of a run of steps stay within the steps taken, and the stats
/// are untouched.
proof fn lemma_remove_steps_bounds(m: TrackerModel, pairs: Seq<(HashKey, HashKey)>, persistent: bool)
    ensures
        0 <= remove_peers_steps(m, pairs, persistent).1 <= pairs.len(),
        0 <= remove_peers_steps(m, pairs, persistent).2 <= pairs.len(),
        remove_peers_steps(m, pairs, persistent).0.stats == m.stats,
    decreases pairs.len(),
{
    if pairs.len() > 0 {
        lemma_remove_steps_bounds(m, pairs.drop_last(), persistent);
    }
}

/// The bounds for a list hold for each of its prefixes.
proof fn lemma_remove_steps_fit_prefix(m: TrackerModel, pairs: Seq<(HashKey, HashKey)>, persistent: bool, n: int)
    requires
        0 <= n <= pairs.len(),
        remove_steps_fit(m, pairs, persistent),
    ensures
        n > 0 ==> remove_step_fits(remove_peers_steps(m, pairs.take(n - 1), persistent).0, pairs[n - 1].0, pairs[n - 1].1),
    decreases pairs.len(),
{
    if n < pairs.len() {
        lemma_remove_steps_fit_prefix(m, pairs.drop_last(), persistent, n);
        if n > 0 {
            assert(pairs.drop_last().take(n - 1) =~= pairs.take(n - 1));
        }
    } else if n > 0 {
        assert(pairs.take(n - 1) =~= pairs.drop_last());
    }
}

impl TorrentTracker {
    /// Records an announce of `peer_entry` under `peer_id` to `info_hash`;
    /// see `model_add_peer`.
    pub fn add_peer(
        &mut self,
        info_hash: InfoHash,
        peer_id: PeerId,
        peer_entry: TorrentPeer,
        completed: bool,
        persistent: bool,
    ) -> (r: TorrentEntry)
        requires
            add_peer_fits(old(self)@, key_of(info_hash@), key_of(peer_id@), peer_entry, completed),
        ensures
            (final(self)@, r@) == model_add_peer(
                old(self)@,
                key_of(info_hash@),
                key_of(peer_id@),
                peer_entry,
                completed,
                persistent,
            ),
    {
        let ghost m = self@;
        let k = hash_key(&info_hash.0);
        let pk = hash_key(&peer_id.0);
        let mut added_seeder = false;
        let mut added_leecher = false;
        let mut removed_seeder = false;
        let mut removed_leecher = false;
        let mut completed_applied = false;
        let data_opt: Option<TorrentEntryItem> = match self.torrents.get(&k) {
            Some(d) => Some(*d),
            None => None,
        };
        let torrent = match data_opt {
            None => TorrentEntry::new(),
            Some(data) => {
                let mut peers = match self.peers.get(&k) {
                    None => BTreeMap::new(),
                    Some(list) => list.clone(),
                };
                let mut data_torrent = data;
                let known: Option<TorrentPeer> = match peers.get(&pk) {
                    Some(p) => Some(*p),
                    None => None,
                };
                match known {
                    None => {
                        if peer_entry.left.0 == 0 {
                            data_torrent.seeders = data_torrent.seeders + 1;
                            added_seeder = true;
                            if completed {
                                data_torrent.completed = data_torrent.completed + 1;
                                completed_applied = true;
                            }
                        } else {
                            data_torrent.leechers = data_torrent.leechers + 1;
                            added_leecher = true;
                        }
                        peers.insert(pk, peer_entry);
                    },
                    Some(data_peer) => {
                        if data_peer.left.0 == 0 && peer_entry.left.0 != 0 {
                            data_torrent.seeders = data_torrent.seeders - 1;
                            data_torrent.leechers = data_torrent.leechers + 1;
                            removed_seeder = true;
                            added_leecher = true;
                        } else if data_peer.left.0 != 0 && peer_entry.left.0 == 0 {
                            data_torrent.seeders = data_torrent.seeders + 1;
                            data_torrent.leechers = data_torrent.leechers - 1;
                            added_seeder = true;
                            removed_leecher = true;
                            if completed {
                                data_torrent.completed = data_torrent.completed + 1;
                                completed_applied = true;
                            }
                        }
                        peers.insert(pk, peer_entry);
                    },
                }
                self.torrents.insert(k, data_torrent);
                self.peers.insert(k, peers.clone());
                if !persistent {
                    TorrentEntry {
                        peers,
                        completed: 0,
                        seeders: data_torrent.seeders,
                        leechers: data_torrent.leechers,
                    }
                } else {
                    TorrentEntry {
                        peers,
                        completed: data_torrent.completed,
                        seeders: data_torrent.seeders,
                        leechers: data_torrent.leechers,
                    }
                }
            },
        };
        let ghost c = PeerChange {
            added_seeder,
            added_leecher,
            removed_seeder,
            removed_leecher,
            completed_applied,
        };
        proof {
            if m.torrents.contains_key(k) {
                assert(c == announce_change(m, k, pk, peer_entry, completed));
                assert(self@.peers =~= m.peers.insert(k, model_peers(m.peers, k).insert(pk, peer_entry)));
            }
            assert(torrent@ =~= model_add_peer(m, k, pk, peer_entry, completed, persistent).1);
        }
        if persistent && completed {
            self.queue_torrent_update(k, torrent.completed);
        }
        if added_seeder {
            self.stats.update(StatsEvent::Seeds, 1);
        }
        if added_leecher {
            self.stats.update(StatsEvent::Peers, 1);
        }
        if removed_seeder {
            self.stats.update(StatsEvent::Seeds, -1);
        }
        if removed_leecher {
            self.stats.update(StatsEvent::Peers, -1);
        }
        if completed_applied {
            self.stats.update(StatsEvent::Completed, 1);
        }
        assert(self@ =~= model_add_peer(m, k, pk, peer_entry, completed, persistent).0);
        torrent
    }

    /// Removes the peer `peer_id` from `info_hash`; see `model_remove_peer`.
    pub fn remove_peer(&mut self, info_hash: InfoHash, peer_id: PeerId, persistent: bool) -> (r: TorrentEntry)
        requires
            remove_peer_fits(old(self)@, key_of(info_hash@), key_of(peer_id@)),
        ensures
            (final(self)@, r@) == model_remove_peer(
                old(self)@,
                key_of(info_hash@),
                key_of(peer_id@),
                persistent,
            ),
    {
        let ghost m = self@;
        let k = hash_key(&info_hash.0);
        let pk = hash_key(&peer_id.0);
        let (seed, leech, torrent) = self.take_out_peer(k, pk, persistent);
        if seed {
            self.stats.update(StatsEvent::Seeds, -1);
        }
        if leech {
            self.stats.update(StatsEvent::Peers, -1);
        }
        assert(self@ =~= model_remove_peer(m, k, pk, persistent).0);
        torrent
    }

    /// One step of removing a peer, without the totals.
    fn take_out_peer(&mut self, k: HashKey, pk: HashKey, persistent: bool) -> (r: (bool, bool, TorrentEntry))
        requires
            remove_step_fits(old(self)@, k, pk),
        ensures
            ({
                let (m1, seed, leech, e) = remove_peer_step(old(self)@, k, pk, persistent);
                &&& final(self)@ == m1
                &&& r.0 == seed
                &&& r.1 == leech
                &&& r.2@ == e
            }),
    {
        let ghost m = self@;
        let mut removed_seeder = false;
        let mut removed_leecher = false;
        let data_opt: Option<TorrentEntryItem> = match self.torrents.get(&k) {
            Some(d) => Some(*d),
            None => None,
        };
        match data_opt {
            None => (false, false, TorrentEntry::new()),
            Some(data) => {
                let mut peers = match self.peers.get(&k) {
                    None => BTreeMap::new(),
                    Some(list) => list.clone(),
                };
                let mut data_torrent = data;
                let known: Option<TorrentPeer> = match peers.get(&pk) {
                    Some(p) => Some(*p),
                    None => None,
                };
                if let Some(peer) = known {
                    if peer.left.0 == 0 {
                        peers.remove(&pk);
                        data_torrent.seeders = data_torrent.seeders - 1;
                        removed_seeder = true;
                    } else {
                        peers.remove(&pk);
                        data_torrent.leechers = data_torrent.leechers - 1;
                        removed_leecher = true;
                    }
                }
                self.torrents.insert(k, data_torrent);
                if peers.is_empty() {
                    self.peers.remove(&k);
                } else {
                    self.peers.insert(k, peers.clone());
                }
                if !persistent {
                    self.torrents.remove(&k);
                }
                let e = TorrentEntry {
                    peers,
                    completed: data_torrent.completed,
                    seeders: data_torrent.seeders,
                    leechers: data_torrent.leechers,
                };
                proof {
                    let step = remove_peer_step(m, k, pk, persistent);
                    assert(self@.peers =~= step.0.peers);
                    assert(self@.torrents =~= step.0.torrents);
                    assert(self@ =~= step.0);
                    assert(e@ =~= step.3);
                }
                (removed_seeder, removed_leecher, e)
            },
        }
    }

    /// Removes each pair of `peers` in turn and returns the pairs that were
    /// there; see `model_remove_peers`.
    pub fn remove_peers(&mut self, peers: Vec<(InfoHash, PeerId)>, persistent: bool) -> (r: Vec<(InfoHash, PeerId)>)
        requires
            remove_peers_fit(old(self)@, pair_keys(peers@), persistent),
        ensures
            final(self)@ == model_remove_peers(old(self)@, pair_keys(peers@), persistent).0,
            pair_keys(r@) == model_remove_peers(old(self)@, pair_keys(peers@), persistent).1,
    {
        let ghost m = self@;
        let ghost ps = pair_keys(peers@);
        let mut removed_seeder: i64 = 0;
        let mut removed_leecher: i64 = 0;
        let mut r: Vec<(InfoHash, PeerId)> = Vec::new();
        let mut i: usize = 0;
        while i < peers.len()
            invariant
                i <= peers@.len(),
                peers@.len() <= i64::MAX,
                ps == pair_keys(peers@),
                remove_steps_fit(m, ps, persistent),
                ({
                    let (m1, seeds, leechers, removed) = remove_peers_steps(m, ps.take(i as int), persistent);
                    &&& self@ == m1
                    &&& removed_seeder == -seeds
                    &&& removed_leecher == -leechers
                    &&& pair_keys(r@) == removed
                }),
            decreases peers@.len() - i,
        {
            let (info_hash, peer_id) = peers[i];
            let k = hash_key(&info_hash.0);
            let pk = hash_key(&peer_id.0);
            proof {
                assert(ps.take(i + 1).drop_last() =~= ps.take(i as int));
                assert(ps.take(i + 1).last() == (k, pk));
                lemma_remove_steps_fit_prefix(m, ps, persistent, i + 1);
                lemma_remove_steps_bounds(m, ps.take(i as int), persistent);
            }
            let (seed, leech, _e) = self.take_out_peer(k, pk, persistent);
            if seed {
                removed_seeder = removed_seeder - 1;
            }
            if leech {
                removed_leecher = removed_leecher - 1;
            }
            if seed || leech {
                r.push((info_hash, peer_id));
            }
            proof {
                let removed = remove_peers_steps(m, ps.take(i as int), persistent).3;
                if seed || leech {
                    assert(pair_keys(r@) =~= removed.push((k, pk)));
                }
            }
            i = i + 1;
        }
        proof {
            assert(ps.take(peers@.len() as int) =~= ps);
            lemma_remove_steps_bounds(m, ps, persistent);
        }
        if removed_seeder != 0 {
            self.stats.update(StatsEvent::Seeds, removed_seeder);
        }
        if removed_leecher != 0 {
            self.stats.update(StatsEvent::Peers, removed_leecher);
        }
        assert(self@ =~= model_remove_peers(m, ps, persistent).0);
        r
    }
}


/// Whether the peer last announced more than `peer_timeout` before `now` (a
/// stamp after `now` has no age).
pub open spec fn peer_expired(p: TorrentPeer, peer_timeout: u64, now: u64) -> bool {
    now - p.updated > peer_timeout
}

/// Whether `m` holds, for the known torrent `k`, the peer `pk`, and that peer
/// has expired.
pub open spec fn expired_pair(m: TrackerModel, k: HashKey, pk: HashKey, peer_timeout: u64, now: u64) -> bool {
    &&& m.torrents.contains_key(k)
    &&& model_peers(m.peers, k).contains_key(pk)
    &&& peer_expired(model_peers(m.peers, k)[pk], peer_timeout, now)
}

/// Whether `ps` lists the expired peers of `m`, each once and nothing else.
pub open spec fn lists_expired(m: TrackerModel, ps: Seq<(HashKey, HashKey)>, peer_timeout: u64, now: u64) -> bool {
    &&& ps.no_duplicates()
    &&& forall|i: int| 0 <= i < ps.len() ==> #[trigger] expired_pair(m, ps[i].0, ps[i].1, peer_timeout, now)
    &&& forall|k: HashKey, pk: HashKey| #[trigger] expired_pair(m, k, pk, peer_timeout, now) ==> ps.contains((k, pk))
}

/// The number of peers that `m` holds, over all torrents.
pub open spec fn stored_peers(m: TrackerModel) -> int {
    map_sum(m.peers, |l: Map<HashKey, TorrentPeer>| l.len() as int)
}

/// Whether the seeder and leecher counters of every torrent lie at least `n`
/// above the least `i64`.
pub open spec fn torrent_counters_above(torrents: Map<HashKey, TorrentEntryItem>, n: int) -> bool {
    forall|k: HashKey| #[trigger] torrents.contains_key(k) ==> i64::MIN + n <= torrents[k].seeders && i64::MIN
        + n <= torrents[k].leechers
}

/// Whether every seeder and leecher counter, of each torrent and in the
/// totals, lies at least `n` above the least `i64`.
pub open spec fn counters_above(m: TrackerModel, n: int) -> bool {
    &&& torrent_counters_above(m.torrents, n)
    &&& i64::MIN + n <= counter(m.stats, StatsEvent::Seeds)
    &&& i64::MIN + n <= counter(m.stats, StatsEvent::Peers)
}

/// Each step takes at most one off a torrent's counters: from counters `n`
/// above the floor, `pairs` steps, at most `n` of them, stay within `i64`.
proof fn lemma_steps_above(m: TrackerModel, pairs: Seq<(HashKey, HashKey)>, persistent: bool, n: int)
    requires
        torrent_counters_above(m.torrents, n),
        pairs.len() <= n,
    ensures
        remove_steps_fit(m, pairs, persistent),
        torrent_counters_above(remove_peers_steps(m, pairs, persistent).0.torrents, n - pairs.len()),
    decreases pairs.len(),
{
    if pairs.len() > 0 {
        let init = pairs.drop_last();
        lemma_steps_above(m, init, persistent, n);
        let m1 = remove_peers_steps(m, init, persistent).0;
        let (k, pk) = pairs.last();
        let m2 = remove_peer_step(m1, k, pk, persistent).0;
        let low = n - pairs.len();
        assert forall|x: HashKey| #[trigger] m2.torrents.contains_key(x) implies i64::MIN + low
            <= m2.torrents[x].seeders && i64::MIN + low <= m2.torrents[x].leechers by {
            assert(m1.torrents.contains_key(x));
        }
    }
}

/// From counters `n` above the floor, removing at most `n` pairs keeps every
/// counter within `i64`.
proof fn lemma_remove_peers_above(m: TrackerModel, pairs: Seq<(HashKey, HashKey)>, persistent: bool, n: int)
    requires
        counters_above(m, n),
        pairs.len() <= n <= i64::MAX,
    ensures
        remove_peers_fit(m, pairs, persistent),
{
    lemma_steps_above(m, pairs, persistent, n);
    lemma_remove_steps_bounds(m, pairs, persistent);
}

/// Appends to `out` the pair (`k`, id) of each peer of `list` that has expired.
fn push_expired(
    out: &mut Vec<(InfoHash, PeerId)>,
    k: HashKey,
    list: &BTreeMap<HashKey, TorrentPeer>,
    peer_timeout: u64,
    now: u64,
)
    ensures
        old(out)@.len() <= final(out)@.len() <= old(out)@.len() + list@.len(),
        final(out)@.subrange(0, old(out)@.len() as int) == old(out)@,
        forall|j: int|
            old(out)@.len() <= j < final(out)@.len() ==> {
                let p = #[trigger] pair_keys(final(out)@)[j];
                &&& p.0 == k
                &&& list@.contains_key(p.1)
                &&& peer_expired(list@[p.1], peer_timeout, now)
            },
        forall|pk: HashKey|
            list@.contains_key(pk) && peer_expired(list@[pk], peer_timeout, now) ==> #[trigger] pair_keys(
                final(out)@,
            ).contains((k, pk)),
        forall|a: int, b: int|
            old(out)@.len() <= a < b < final(out)@.len() ==> #[trigger] pair_keys(final(out)@)[a] != #[trigger] pair_keys(
                final(out)@,
            )[b],
{
    let ghost o = out@;
    let ghost start = out@.len();
    let pks = key_list(list);
    let kb = key_bytes(k);
    let mut j: usize = 0;
    while j < pks.len()
        invariant
            j <= pks@.len(),
            pks@.to_set() == list@.dom(),
            pks@.no_duplicates(),
            start == o.len(),
            start <= out@.len() <= start + j,
            out@.subrange(0, start as int) == o,
            key_of(kb@) == k,
            forall|x: int|
                start <= x < out@.len() ==> {
                    let p = #[trigger] pair_keys(out@)[x];
                    &&& p.0 == k
                    &&& pks@.take(j as int).contains(p.1)
                    &&& list@.contains_key(p.1)
                    &&& peer_expired(list@[p.1], peer_timeout, now)
                },
            forall|pk: HashKey|
                pks@.take(j as int).contains(pk) && list@.contains_key(pk) && peer_expired(list@[pk], peer_timeout, now)
                    ==> #[trigger] pair_keys(out@).contains((k, pk)),
            forall|a: int, b: int|
                start <= a < b < out@.len() ==> #[trigger] pair_keys(out@)[a] != #[trigger] pair_keys(out@)[b],
        decreases pks@.len() - j,
    {
        let pk = pks[j];
        proof {
            lemma_take_one_more(pks@, j as int);
            lemma_not_before(pks@, j as int);
            assert(pks@.to_set().contains(pk));
        }
        let stale = match list.get(&pk) {
            Some(p) => now > p.updated && now - p.updated > peer_timeout,
            None => false,
        };
        let ghost before = out@;
        if stale {
            let pb = key_bytes(pk);
            out.push((InfoHash(kb), PeerId(pb)));
            proof {
                assert(pair_keys(out@) =~= pair_keys(before).push((k, pk)));
                assert(out@.subrange(0, start as int) =~= before.subrange(0, start as int));
                assert forall|q: HashKey|
                    pks@.take(j + 1).contains(q) && list@.contains_key(q) && peer_expired(list@[q], peer_timeout, now)
                    implies #[trigger] pair_keys(out@).contains((k, q)) by {
                    if q == pk {
                        assert(pair_keys(out@)[before.len() as int] == (k, pk));
                    } else {
                        assert(pair_keys(before).contains((k, q)));
                        let w = choose|w: int| 0 <= w < pair_keys(before).len() && pair_keys(before)[w] == (k, q);
                        assert(pair_keys(out@)[w] == (k, q));
                    }
                }
            }
        } else {
            proof {
                assert forall|q: HashKey|
                    pks@.take(j + 1).contains(q) && list@.contains_key(q) && peer_expired(list@[q], peer_timeout, now)
                    implies #[trigger] pair_keys(out@).contains((k, q)) by {
                    if q == pk {
                        assert(list@.contains_key(pk));
                    }
                }
            }
        }
        j = j + 1;
    }
    proof {
        lemma_all_taken(pks@, list@.dom());
    }
}

impl TorrentTracker {
    /// The pairs (torrent, peer) of the known torrents whose peer last
    /// announced more than `peer_timeout` before `now`, each once.
    pub fn expired_peers(&self, peer_timeout: u64, now: u64) -> (r: Vec<(InfoHash, PeerId)>)
        ensures
            lists_expired(self@, pair_keys(r@), peer_timeout, now),
            r@.len() <= stored_peers(self@),
    {
        let ghost m = self@;
        let ghost sizes = |l: Map<HashKey, TorrentPeer>| l.len() as int;
        let ks = key_list(&self.peers);
        let ghost s = ks@.map_values(|k: HashKey| (k, m.peers[k]));
        proof {
            assert(m.peers.dom() =~= self.peers@.dom());
        }
        let mut r: Vec<(InfoHash, PeerId)> = Vec::new();
        let mut i: usize = 0;
        while i < ks.len()
            invariant
                m == self@,
                i <= ks@.len(),
                ks@.to_set() == m.peers.dom(),
                ks@.to_set() == self.peers@.dom(),
                ks@.no_duplicates(),
                s == ks@.map_values(|k: HashKey| (k, m.peers[k])),
                sizes == (|l: Map<HashKey, TorrentPeer>| l.len() as int),
                r@.len() <= seq_sum(s.take(i as int), sizes),
                forall|j: int|
                    0 <= j < r@.len() ==> #[trigger] expired_pair(
                        m,
                        pair_keys(r@)[j].0,
                        pair_keys(r@)[j].1,
                        peer_timeout,
                        now,
                    ),
                forall|j: int| 0 <= j < r@.len() ==> ks@.take(i as int).contains(#[trigger] pair_keys(r@)[j].0),
                forall|k: HashKey, pk: HashKey|
                    ks@.take(i as int).contains(k) && #[trigger] expired_pair(m, k, pk, peer_timeout, now)
                        ==> pair_keys(r@).contains((k, pk)),
                pair_keys(r@).no_duplicates(),
            decreases ks@.len() - i,
        {
            let k = ks[i];
            proof {
                lemma_take_one_more(ks@, i as int);
                lemma_not_before(ks@, i as int);
                assert(ks@.to_set().contains(k));
                lemma_seq_sum_step(s, sizes, i as int);
                assert(s[i as int] == (k, m.peers[k]));
            }
            let ghost before = r@;
            if self.torrents.contains_key(&k) {
                match self.peers.get(&k) {
                    Some(list) => {
                        assert(list@ == model_peers(m.peers, k));
                        push_expired(&mut r, k, list, peer_timeout, now);
                        proof {
                            let n0 = before.len() as int;
                            assert forall|j: int| 0 <= j < r@.len() implies #[trigger] expired_pair(
                                m,
                                pair_keys(r@)[j].0,
                                pair_keys(r@)[j].1,
                                peer_timeout,
                                now,
                            ) by {
                                if j < n0 {
                                    assert(r@[j] == r@.subrange(0, n0)[j]);
                                    assert(pair_keys(r@)[j] == pair_keys(before)[j]);
                                }
                            }
                            assert forall|j: int| 0 <= j < r@.len() implies ks@.take(i + 1).contains(
                                #[trigger] pair_keys(r@)[j].0,
                            ) by {
                                if j < n0 {
                                    assert(r@[j] == r@.subrange(0, n0)[j]);
                                    assert(pair_keys(r@)[j] == pair_keys(before)[j]);
                                }
                            }
                            assert forall|a: int, b: int| 0 <= a < b < pair_keys(r@).len() implies pair_keys(r@)[a]
                                != pair_keys(r@)[b] by {
                                if b < n0 {
                                    assert(r@[a] == r@.subrange(0, n0)[a]);
                                    assert(r@[b] == r@.subrange(0, n0)[b]);
                                    assert(pair_keys(before)[a] != pair_keys(before)[b]);
                                } else if a < n0 {
                                    assert(r@[a] == r@.subrange(0, n0)[a]);
                                    assert(ks@.take(i as int).contains(pair_keys(before)[a].0));
                                }
                            }
                            assert forall|k2: HashKey, pk2: HashKey|
                                ks@.take(i + 1).contains(k2) && #[trigger] expired_pair(m, k2, pk2, peer_timeout, now)
                                implies pair_keys(r@).contains((k2, pk2)) by {
                                if k2 != k {
                                    assert(pair_keys(before).contains((k2, pk2)));
                                    let w = choose|w: int| 0 <= w < pair_keys(before).len() && pair_keys(before)[w] == (k2, pk2);
                                    assert(r@[w] == r@.subrange(0, n0)[w]);
                                    assert(pair_keys(r@)[w] == (k2, pk2));
                                }
                            }
                        }
                    },
                    None => {},
                }
            } else {
                proof {
                    assert forall|k2: HashKey, pk2: HashKey|
                        ks@.take(i + 1).contains(k2) && #[trigger] expired_pair(m, k2, pk2, peer_timeout, now)
                        implies pair_keys(r@).contains((k2, pk2)) by {
                        assert(k2 != k);
                    }
                }
            }
            i = i + 1;
        }
        proof {
            lemma_all_taken(ks@, m.peers.dom());
            assert forall|k2: HashKey, pk2: HashKey| #[trigger] expired_pair(m, k2, pk2, peer_timeout, now) implies pair_keys(
                r@,
            ).contains((k2, pk2)) by {
                assert(m.peers.contains_key(k2));
            }
            vstd::seq_lib::seq_to_set_is_finite(ks@);
            ks@.unique_seq_to_set();
            assert(s.take(s.len() as int) =~= s);
            assert forall|j: int| #![trigger s[j]] 0 <= j < s.len() implies m.peers.contains_key(s[j].0)
                && m.peers[s[j].0] == s[j].1 by {
                assert(ks@.contains(ks@[j]));
            }
            assert forall|a: int, b: int| #![trigger s[a], s[b]] 0 <= a < b < s.len() implies s[a].0 != s[b].0 by {
                assert(ks@[a] != ks@[b]);
            }
            lemma_entries_sum(m.peers, s, sizes);
        }
        r
    }

    /// Removes the peers of the known torrents that last announced more than
    /// `peer_timeout` before `now`, and returns the pairs removed; see
    /// `expired_peers` and `remove_peers`.
    pub fn clean_peers(&mut self, peer_timeout: u64, now: u64, persistent: bool) -> (r: Vec<(InfoHash, PeerId)>)
        requires
            stored_peers(old(self)@) <= i64::MAX,
            counters_above(old(self)@, stored_peers(old(self)@)),
        ensures
            exists|ps: Seq<(HashKey, HashKey)>|
                {
                    &&& lists_expired(old(self)@, ps, peer_timeout, now)
                    &&& final(self)@ == model_remove_peers(old(self)@, ps, persistent).0
                    &&& pair_keys(r@) == model_remove_peers(old(self)@, ps, persistent).1
                },
            forall|k: HashKey, pk: HashKey| !#[trigger] expired_pair(final(self)@, k, pk, peer_timeout, now),
    {
        let pairs = self.expired_peers(peer_timeout, now);
        let ghost m = self@;
        let ghost ps = pair_keys(pairs@);
        proof {
            lemma_remove_peers_above(m, ps, persistent, stored_peers(m));
            crate::tracker_objects::laws::lemma_clean_peers_leaves_none_expired(m, ps, persistent, peer_timeout, now);
        }
        self.remove_peers(pairs, persistent)
    }
}


/// Whether `x + 1` (when `up`) and `x - 1` (when `down`) stay within `i64`.
fn steps_fit(x: i64, up: bool, down: bool) -> (r: bool)
    ensures
        r == (fits_i64(x + one_if(up)) && fits_i64(x - one_if(down))),
{
    (!up || x < i64::MAX) && (!down || x > i64::MIN)
}

impl TorrentTracker {
    /// Whether announcing `peer_entry` under `peer_id` to `info_hash` keeps
    /// every counter within `i64`.
    pub fn add_peer_fits_now(&self, info_hash: InfoHash, peer_id: PeerId, peer_entry: TorrentPeer, completed: bool) -> (r: bool)
        ensures
            r == add_peer_fits(self@, key_of(info_hash@), key_of(peer_id@), peer_entry, completed),
    {
        let k = hash_key(&info_hash.0);
        let pk = hash_key(&peer_id.0);
        let item = match self.torrents.get(&k) {
            Some(d) => *d,
            None => {
                return true;
            },
        };
        let known: Option<TorrentPeer> = match self.peers.get(&k) {
            Some(list) => match list.get(&pk) {
                Some(p) => Some(*p),
                None => None,
            },
            None => None,
        };
        let seed = peer_entry.left.0 == 0;
        let (added_seeder, added_leecher, removed_seeder, removed_leecher, completed_applied) = match known {
            None => if seed {
                (true, false, false, false, completed)
            } else {
                (false, true, false, false, false)
            },
            Some(o) => {
                let was_seed = o.left.0 == 0;
                if was_seed && !seed {
                    (false, true, true, false, false)
                } else if !was_seed && seed {
                    (true, false, false, true, completed)
                } else {
                    (false, false, false, false, false)
                }
            },
        };
        proof {
            let c = announce_change(self@, k, pk, peer_entry, completed);
            assert(c.added_seeder == added_seeder && c.added_leecher == added_leecher);
            assert(c.removed_seeder == removed_seeder && c.removed_leecher == removed_leecher);
            assert(c.completed_applied == completed_applied);
        }
        let s = self.stats;
        steps_fit(item.completed, completed_applied, false) && steps_fit(item.seeders, added_seeder, removed_seeder)
            && steps_fit(item.leechers, added_leecher, removed_leecher) && steps_fit(
            s.get(StatsEvent::Seeds),
            added_seeder,
            removed_seeder,
        ) && steps_fit(s.get(StatsEvent::Peers), added_leecher, removed_leecher) && steps_fit(
            s.get(StatsEvent::Completed),
            completed_applied,
            false,
        )
    }

    /// Whether taking the peer `peer_id` out of `info_hash` keeps every
    /// counter within `i64`.
    pub fn remove_peer_fits_now(&self, info_hash: InfoHash, peer_id: PeerId) -> (r: bool)
        ensures
            r == remove_peer_fits(self@, key_of(info_hash@), key_of(peer_id@)),
    {
        let k = hash_key(&info_hash.0);
        let pk = hash_key(&peer_id.0);
        let s = self.stats;
        let totals = s.get(StatsEvent::Seeds) > i64::MIN && s.get(StatsEvent::Peers) > i64::MIN;
        let item = match self.torrents.get(&k) {
            Some(d) => *d,
            None => {
                return totals;
            },
        };
        let present = match self.peers.get(&k) {
            Some(list) => list.contains_key(&pk),
            None => false,
        };
        totals && (!present || (item.seeders > i64::MIN && item.leechers > i64::MIN))
    }
}


/// Whether `x` lies at least `n` above the least `i64`.
fn above_floor(x: i64, n: u64) -> (r: bool)
    ensures
        r == (i64::MIN + n <= x),
{
    (x as i128) >= (i64::MIN as i128) + (n as i128)
}

impl TorrentTracker {
    /// Whether every seeder and leecher counter, of each torrent and in the
    /// totals, lies at least `n` above the least `i64`.
    pub fn counters_above_now(&self, n: u64) -> (r: bool)
        ensures
            r == counters_above(self@, n as int),
    {
        let ghost rem = vstd::std_specs::btree::spec_btree_map_iter(&self.torrents).remaining();
        let ghost w = owned_entries(rem);
        proof {
            lemma_walk(&self.torrents, rem);
        }
        let mut ok = true;
        for kv in it: self.torrents.iter()
            invariant
                rem == vstd::std_specs::btree::spec_btree_map_iter(&self.torrents).remaining(),
                w == owned_entries(rem),
                it.seq() == rem,
                ok == forall|j: int|
                    0 <= j < it.index() ==> i64::MIN + n <= (#[trigger] w[j]).1.seeders && i64::MIN + n
                        <= w[j].1.leechers,
        {
            let ghost idx = it.index();
            assert(w[idx] == (*kv.0, *kv.1));
            let item = *kv.1;
            if !(above_floor(item.seeders, n) && above_floor(item.leechers, n)) {
                ok = false;
            }
        }
        proof {
            if ok {
                assert forall|k: HashKey| #[trigger] self@.torrents.contains_key(k) implies i64::MIN + n
                    <= self@.torrents[k].seeders && i64::MIN + n <= self@.torrents[k].leechers by {
                    assert(self.torrents@.dom().contains(k));
                    let j = choose|j: int| 0 <= j < w.len() && #[trigger] w[j].0 == k;
                    assert(w[j].1 == self.torrents@[k]);
                }
            } else {
                let j = choose|j: int|
                    !(0 <= j < w.len() ==> i64::MIN + n <= (#[trigger] w[j]).1.seeders && i64::MIN + n
                        <= w[j].1.leechers);
                assert(self@.torrents.contains_key(w[j].0));
            }
        }
        let s = self.stats;
        ok && above_floor(s.get(StatsEvent::Seeds), n) && above_floor(s.get(StatsEvent::Peers), n)
    }

    /// Removes the expired peers as `clean_peers` does, when taking them out
    /// keeps every counter within `i64`; otherwise leaves the tracker as it
    /// is and gives `None`.
    pub fn try_clean_peers(&mut self, peer_timeout: u64, now: u64, persistent: bool) -> (r: Option<
        Vec<(InfoHash, PeerId)>,
    >)
        ensures
            match r {
                Some(v) => exists|ps: Seq<(HashKey, HashKey)>|
                    {
                        &&& lists_expired(old(self)@, ps, peer_timeout, now)
                        &&& counters_above(old(self)@, ps.len() as int)
                        &&& final(self)@ == model_remove_peers(old(self)@, ps, persistent).0
                        &&& pair_keys(v@) == model_remove_peers(old(self)@, ps, persistent).1
                    },
                None => final(self)@ == old(self)@ && exists|ps: Seq<(HashKey, HashKey)>|
                    lists_expired(old(self)@, ps, peer_timeout, now) && (ps.len() > i64::MAX || !counters_above(
                        old(self)@,
                        ps.len() as int,
                    )),
            },
    {
        let pairs = self.expired_peers(peer_timeout, now);
        let ghost m = self@;
        let ghost ps = pair_keys(pairs@);
        let n = pairs.len() as u64;
        assert(ps.len() == n);
        if n <= 0x7fff_ffff_ffff_ffffu64 && self.counters_above_now(n) {
            proof {
                lemma_remove_peers_above(m, ps, persistent, n as int);
            }
            let v = self.remove_peers(pairs, persistent);
            assert(lists_expired(m, ps, peer_timeout, now) && counters_above(m, ps.len() as int)
                && self@ == model_remove_peers(m, ps, persistent).0 && pair_keys(v@) == model_remove_peers(
                m,
                ps,
                persistent,
            ).1);
            Some(v)
        } else {
            assert(lists_expired(m, ps, peer_timeout, now));
            None
        }
    }
}

} // verus!
