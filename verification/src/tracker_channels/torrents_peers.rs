//! The actor that owns the torrents and their peers.

use vstd::prelude::*;
use std::collections::BTreeMap;
use vstd::std_specs::iter::IteratorSpec;
use crate::common::TorrentPeer;
use crate::tracker::peer_lists;
use crate::tracker::keyed::{HashKey, hash_key, key_of, lemma_entries_sum, lemma_seq_sum_step, lemma_walk, map_sum, owned_entries, seq_sum, lemma_map_sum_insert, lemma_map_sum_remove, lemma_map_sum_basics};
use crate::tracker_objects::peers::{PeerChange, add_peer_change, changed_item, one_if, peer_in};
use crate::tracker_objects::torrents::{TorrentEntry, TorrentEntryItem, TorrentEntryModel, empty_entry, entry_view, model_peers};
use crate::tracker_objects::counts::{counts_match, lemma_announce_keeps_counts, lemma_departure_keeps_counts, lemma_forget_keeps_counts};
use crate::udp::types::{InfoHash, PeerId};

verus! {

broadcast use vstd::std_specs::btree::group_btree_axioms;

/// The number of peers in a list.
pub open spec fn list_len(l: BTreeMap<HashKey, TorrentPeer>) -> int {
    l@.len() as int
}

/// How many peers all torrents have together.
pub open spec fn total_peers(peers: Map<HashKey, BTreeMap<HashKey, TorrentPeer>>) -> int {
    map_sum(peers, |l: BTreeMap<HashKey, TorrentPeer>| list_len(l))
}

/// Counts the peers of all torrents.
pub fn peers_count(peers: &BTreeMap<HashKey, BTreeMap<HashKey, TorrentPeer>>) -> (r: u64)
    requires
        total_peers(peers@) <= u64::MAX,
    ensures
        r == total_peers(peers@),
{
    let ghost rem = vstd::std_specs::btree::spec_btree_map_iter(peers).remaining();
    let ghost w = owned_entries(rem);
    let ghost f = |l: BTreeMap<HashKey, TorrentPeer>| list_len(l);
    proof {
        lemma_walk(peers, rem);
        lemma_entries_sum(peers@, w, f);
    }
    let mut count: u64 = 0;
    for kv in it: peers.iter()
        invariant
            rem == vstd::std_specs::btree::spec_btree_map_iter(peers).remaining(),
            w == owned_entries(rem),
            it.seq() == rem,
            f == (|l: BTreeMap<HashKey, TorrentPeer>| list_len(l)),
            seq_sum(w, f) <= u64::MAX,
            forall|i: int| 0 <= i < w.len() ==> 0 <= #[trigger] f(w[i].1),
            count == seq_sum(w.take(it.index() as int), f),
            it.index() == w.len() ==> count == seq_sum(w, f),
    {
        proof {
            lemma_seq_sum_step(w, f, it.index() as int);
            lemma_seq_sum_prefix_le(w, f, it.index() + 1);
        }
        let n = kv.1.len();
        count = count + n as u64;
        assert(w.take(w.len() as int) =~= w);
    }
    count
}

/// One for a seeding peer.
pub open spec fn seed_one(p: TorrentPeer) -> int {
    if p.is_seed() {
        1
    } else {
        0
    }
}

/// One for a leeching peer.
pub open spec fn leech_one(p: TorrentPeer) -> int {
    if p.is_seed() {
        0
    } else {
        1
    }
}

/// Counts the seeders and the leechers of a list of peers.
pub fn count_seeds(list: &BTreeMap<HashKey, TorrentPeer>) -> (r: (u64, u64))
    ensures
        r.0 == map_sum(list@, |p: TorrentPeer| seed_one(p)),
        r.1 == map_sum(list@, |p: TorrentPeer| leech_one(p)),
{
    let ghost rem = vstd::std_specs::btree::spec_btree_map_iter(list).remaining();
    let ghost w = owned_entries(rem);
    let ghost fs = |p: TorrentPeer| seed_one(p);
    let ghost fl = |p: TorrentPeer| leech_one(p);
    proof {
        lemma_walk(list, rem);
    }
    let mut seeds: u64 = 0;
    let mut leechers: u64 = 0;
    for kv in it: list.iter()
        invariant
            rem == vstd::std_specs::btree::spec_btree_map_iter(list).remaining(),
            w == owned_entries(rem),
            it.seq() == rem,
            w.len() == list@.len(),
            list@.len() == list.len(),
            fs == (|p: TorrentPeer| seed_one(p)),
            fl == (|p: TorrentPeer| leech_one(p)),
            seeds == seq_sum(w.take(it.index() as int), fs),
            leechers == seq_sum(w.take(it.index() as int), fl),
            seeds + leechers == it.index(),
            it.index() == w.len() ==> seeds == seq_sum(w, fs) && leechers == seq_sum(w, fl),
    {
        proof {
            lemma_seq_sum_step(w, fs, it.index() as int);
            lemma_seq_sum_step(w, fl, it.index() as int);
        }
        if kv.1.left.0 == 0 {
            seeds = seeds + 1;
        } else {
            leechers = leechers + 1;
        }
        assert(w.take(w.len() as int) =~= w);
    }
    proof {
        lemma_entries_sum(list@, w, fs);
        lemma_entries_sum(list@, w, fl);
    }
    (seeds, leechers)
}

/// A request to the torrents-and-peers actor.
pub enum TorrentsPeersRequest {
    TorrentAdd { info_hash: InfoHash, torrent_entry_item: TorrentEntryItem },
    TorrentRemove { info_hash: InfoHash },
    TorrentGet { info_hash: InfoHash },
    TorrentsGetChunk,
    PeerAdd { info_hash: InfoHash, peer_id: PeerId, torrent_peer: TorrentPeer, completed: bool },
    PeerRemove { info_hash: InfoHash, peer_id: PeerId },
    PeerGet,
    PeersGetChunk,
    Shutdown,
    /// An action the actor does not know.
    Unknown,
}

/// The action a reply names: the request's own, or an error.
#[derive(PartialEq, Eq, Structural, Clone, Copy, Debug)]
pub enum TorrentsPeersAction {
    TorrentAdd,
    TorrentRemove,
    TorrentGet,
    PeerAdd,
    PeerRemove,
    Shutdown,
    Error,
}

/// What a reply of the torrents-and-peers actor carries.
pub enum TorrentsPeersData {
    Nothing,
    TorrentRemoved { removed_torrent: bool, removed_seed_count: u64, removed_peer_count: u64 },
    Torrent(Option<TorrentEntry>),
    PeerAdded {
        added_seeder: bool,
        added_leecher: bool,
        removed_seeder: bool,
        removed_leecher: bool,
        completed_applied: bool,
        torrent_entry: TorrentEntry,
    },
    PeerRemoved { removed_seeder: bool, removed_leecher: bool, torrent_entry: TorrentEntry },
    UnknownAction,
}

/// A reply of the torrents-and-peers actor: the action, its data, the
/// number of torrents, the number of peers (left out of the reply to a
/// shutdown), and whether the actor stops.
pub struct TorrentsPeersReply {
    pub action: TorrentsPeersAction,
    pub data: TorrentsPeersData,
    pub torrent_count: usize,
    pub peer_count: Option<u64>,
    pub stop: bool,
}

/// The torrents and the peers that the actor owns.
pub struct TorrentsPeersState {
    pub torrents: BTreeMap<HashKey, TorrentEntryItem>,
    pub peers: BTreeMap<HashKey, BTreeMap<HashKey, TorrentPeer>>,
}

/// The peers of the actor, as plain maps.
pub open spec fn tp_peers(s: TorrentsPeersState) -> Map<HashKey, Map<HashKey, TorrentPeer>> {
    peer_lists(s.peers@)
}

/// The move that announcing `peer` to the torrent `k` makes.
pub open spec fn tp_change(s: TorrentsPeersState, k: HashKey, pk: HashKey, peer: TorrentPeer, completed: bool) -> PeerChange {
    add_peer_change(peer_in(model_peers(tp_peers(s), k), pk), peer, completed)
}

/// Whether announcing keeps the torrent's counters within `i64`.
pub open spec fn tp_add_fits(s: TorrentsPeersState, k: HashKey, pk: HashKey, peer: TorrentPeer, completed: bool) -> bool {
    s.torrents@.contains_key(k) ==> {
        let item = s.torrents@[k];
        let c = tp_change(s, k, pk, peer, completed);
        &&& crate::tracker::fits_i64(item.completed + one_if(c.completed_applied))
        &&& crate::tracker::fits_i64(item.seeders + one_if(c.added_seeder))
        &&& crate::tracker::fits_i64(item.seeders - one_if(c.removed_seeder))
        &&& crate::tracker::fits_i64(item.leechers + one_if(c.added_leecher))
        &&& crate::tracker::fits_i64(item.leechers - one_if(c.removed_leecher))
    }
}

/// The entry that a torrent of the actor has, with its peers.
pub open spec fn tp_entry(item: TorrentEntryItem, peers: Map<HashKey, TorrentPeer>) -> TorrentEntryModel {
    TorrentEntryModel { peers, completed: item.completed, seeders: item.seeders, leechers: item.leechers }
}

/// The reply carries the counts of `s`.
pub open spec fn tp_counts(r: TorrentsPeersReply, s: TorrentsPeersState) -> bool {
    &&& r.torrent_count == s.torrents@.len()
    &&& r.peer_count == Some(total_peers(s.peers@) as u64)
}

impl TorrentsPeersState {
    /// No torrents, no peers.
    pub fn new() -> (r: TorrentsPeersState)
        ensures
            r.torrents@ == Map::<HashKey, TorrentEntryItem>::empty(),
            r.peers@ == Map::<HashKey, BTreeMap<HashKey, TorrentPeer>>::empty(),
    {
        TorrentsPeersState { torrents: BTreeMap::new(), peers: BTreeMap::new() }
    }

    fn reply(&self, action: TorrentsPeersAction, data: TorrentsPeersData) -> (r: TorrentsPeersReply)
        requires
            total_peers(self.peers@) <= u64::MAX,
        ensures
            r.action == action,
            r.data == data,
            !r.stop,
            tp_counts(r, *self),
    {
        let n = self.torrents.len();
        let p = peers_count(&self.peers);
        TorrentsPeersReply { action, data, torrent_count: n, peer_count: Some(p), stop: false }
    }

    /// Answers one request; the actions that the actor does not answer give
    /// `None`. Every request but the one that adds a torrent, whose counters
    /// come with it, keeps each torrent's seeders and leechers equal to the
    /// numbers of its seeding and leeching peers.
    pub fn handle(&mut self, request: TorrentsPeersRequest) -> (r: Option<TorrentsPeersReply>)
        requires
            total_peers(old(self).peers@) < u64::MAX,
            request matches TorrentsPeersRequest::PeerAdd { info_hash, peer_id, torrent_peer, completed }
                ==> tp_add_fits(*old(self), key_of(info_hash@), key_of(peer_id@), torrent_peer, completed),
            request matches TorrentsPeersRequest::PeerRemove { info_hash, peer_id }
                ==> tp_remove_fits(*old(self), key_of(info_hash@), key_of(peer_id@)),
        ensures
            total_peers(final(self).peers@) <= total_peers(old(self).peers@) + 1,
            match request {
                TorrentsPeersRequest::TorrentAdd { info_hash, torrent_entry_item } => {
                    &&& final(self).torrents@ == old(self).torrents@.insert(key_of(info_hash@), torrent_entry_item)
                    &&& final(self).peers == old(self).peers
                    &&& r matches Some(rep) && rep.action == TorrentsPeersAction::TorrentAdd
                        && rep.data is Nothing && !rep.stop && tp_counts(rep, *final(self))
                },
                TorrentsPeersRequest::TorrentRemove { info_hash } => {
                    let k = key_of(info_hash@);
                    let list = model_peers(tp_peers(*old(self)), k);
                    &&& final(self).torrents@ == old(self).torrents@.remove(k)
                    &&& final(self).peers@ == old(self).peers@.remove(k)
                    &&& r matches Some(rep) && rep.action == TorrentsPeersAction::TorrentRemove
                        && !rep.stop && tp_counts(rep, *final(self))
                        && (rep.data matches TorrentsPeersData::TorrentRemoved { removed_torrent, removed_seed_count, removed_peer_count }
                        && removed_torrent == old(self).torrents@.contains_key(k)
                        && removed_seed_count == map_sum(list, |p: TorrentPeer| seed_one(p))
                        && removed_peer_count == map_sum(list, |p: TorrentPeer| leech_one(p)))
                },
                TorrentsPeersRequest::TorrentGet { info_hash } => {
                    let k = key_of(info_hash@);
                    &&& *final(self) == *old(self)
                    &&& r matches Some(rep) && rep.action == TorrentsPeersAction::TorrentGet
                        && !rep.stop && tp_counts(rep, *final(self))
                        && (rep.data matches TorrentsPeersData::Torrent(e)
                        && entry_view(e) == (if old(self).torrents@.contains_key(k) {
                            Some(tp_entry(old(self).torrents@[k], model_peers(tp_peers(*old(self)), k)))
                        } else {
                            None
                        }))
                },
                TorrentsPeersRequest::PeerAdd { info_hash, peer_id, torrent_peer, completed } => {
                    let k = key_of(info_hash@);
                    let pk = key_of(peer_id@);
                    let c = tp_change(*old(self), k, pk, torrent_peer, completed);
                    let list = model_peers(tp_peers(*old(self)), k).insert(pk, torrent_peer);
                    let item = changed_item(old(self).torrents@[k], c);
                    &&& r matches Some(rep) && rep.action == TorrentsPeersAction::PeerAdd
                        && !rep.stop && tp_counts(rep, *final(self))
                        && (rep.data matches TorrentsPeersData::PeerAdded { added_seeder, added_leecher, removed_seeder, removed_leecher, completed_applied, torrent_entry }
                        && if old(self).torrents@.contains_key(k) {
                            &&& final(self).torrents@ == old(self).torrents@.insert(k, item)
                            &&& tp_peers(*final(self)) == tp_peers(*old(self)).insert(k, list)
                            &&& c == (PeerChange { added_seeder, added_leecher, removed_seeder, removed_leecher, completed_applied })
                            &&& torrent_entry@ == tp_entry(item, list)
                        } else {
                            &&& *final(self) == *old(self)
                            &&& !added_seeder && !added_leecher && !removed_seeder && !removed_leecher && !completed_applied
                            &&& torrent_entry@ == empty_entry()
                        })
                },
                TorrentsPeersRequest::PeerRemove { info_hash, peer_id } => {
                    let k = key_of(info_hash@);
                    let pk = key_of(peer_id@);
                    let list = model_peers(tp_peers(*old(self)), k);
                    let present = list.contains_key(pk);
                    let seed = present && list[pk].is_seed();
                    let leech = present && !list[pk].is_seed();
                    let list2 = list.remove(pk);
                    let old_item = old(self).torrents@[k];
                    let item = TorrentEntryItem {
                        completed: old_item.completed,
                        seeders: (old_item.seeders - one_if(seed)) as i64,
                        leechers: (old_item.leechers - one_if(leech)) as i64,
                    };
                    &&& r matches Some(rep) && rep.action == TorrentsPeersAction::PeerRemove
                        && !rep.stop && tp_counts(rep, *final(self))
                        && (rep.data matches TorrentsPeersData::PeerRemoved { removed_seeder, removed_leecher, torrent_entry }
                        && if old(self).torrents@.contains_key(k) {
                            &&& final(self).torrents@ == old(self).torrents@.insert(k, item)
                            &&& tp_peers(*final(self)) == (if list2.len() == 0 {
                                tp_peers(*old(self)).remove(k)
                            } else {
                                tp_peers(*old(self)).insert(k, list2)
                            })
                            &&& removed_seeder == seed
                            &&& removed_leecher == leech
                            &&& torrent_entry@ == tp_entry(item, list2)
                        } else {
                            &&& *final(self) == *old(self)
                            &&& !removed_seeder && !removed_leecher
                            &&& torrent_entry@ == empty_entry()
                        })
                },
                TorrentsPeersRequest::Shutdown => {
                    &&& *final(self) == *old(self)
                    &&& r matches Some(rep) && rep.action == TorrentsPeersAction::Shutdown
                        && rep.data is Nothing && rep.stop && rep.torrent_count == old(self).torrents@.len()
                        && rep.peer_count is None
                },
                TorrentsPeersRequest::Unknown => {
                    &&& *final(self) == *old(self)
                    &&& r matches Some(rep) && rep.action == TorrentsPeersAction::Error
                        && rep.data is UnknownAction && !rep.stop && tp_counts(rep, *final(self))
                },
                _ => {
                    &&& *final(self) == *old(self)
                    &&& r is None
                },
            },
            !(request is TorrentAdd) && counts_match(old(self).torrents@, tp_peers(*old(self)))
                ==> counts_match(final(self).torrents@, tp_peers(*final(self))),
    {
        proof {
            lemma_total_peers_nonneg(self.peers@);
        }
        let ghost before = *self;
        match request {
            TorrentsPeersRequest::TorrentAdd { info_hash, torrent_entry_item } => {
                let k = hash_key(&info_hash.0);
                self.torrents.insert(k, torrent_entry_item);
                Some(self.reply(TorrentsPeersAction::TorrentAdd, TorrentsPeersData::Nothing))
            },
            TorrentsPeersRequest::TorrentRemove { info_hash } => {
                let k = hash_key(&info_hash.0);
                let ghost old_peers = self.peers@;
                let removed_torrent = self.torrents.contains_key(&k);
                if removed_torrent {
                    self.torrents.remove(&k);
                }
                let (removed_seed_count, removed_peer_count) = match self.peers.get(&k) {
                    None => (0u64, 0u64),
                    Some(list) => count_seeds(list),
                };
                if self.peers.contains_key(&k) {
                    self.peers.remove(&k);
                }
                proof {
                    assert(self.peers@ =~= old_peers.remove(k));
                    assert(tp_peers(*self) =~= tp_peers(before).remove(k));
                    if counts_match(before.torrents@, tp_peers(before)) {
                        lemma_forget_keeps_counts(before.torrents@, tp_peers(before), k);
                        if !removed_torrent {
                            assert(before.torrents@.remove(k) =~= before.torrents@);
                        }
                    }
                    lemma_total_peers_remove(old_peers, k);
                    if !old_peers.contains_key(k) {
                        lemma_map_sum_basics(Map::<HashKey, TorrentPeer>::empty(), |p: TorrentPeer| seed_one(p), arbitrary());
                        lemma_map_sum_basics(Map::<HashKey, TorrentPeer>::empty(), |p: TorrentPeer| leech_one(p), arbitrary());
                    }
                }
                Some(
                    self.reply(
                        TorrentsPeersAction::TorrentRemove,
                        TorrentsPeersData::TorrentRemoved {
                            removed_torrent,
                            removed_seed_count,
                            removed_peer_count,
                        },
                    ),
                )
            },
            TorrentsPeersRequest::TorrentGet { info_hash } => {
                let k = hash_key(&info_hash.0);
                let e = match self.torrents.get(&k) {
                    None => None,
                    Some(item) => {
                        let peers = match self.peers.get(&k) {
                            None => BTreeMap::new(),
                            Some(list) => list.clone(),
                        };
                        let e = TorrentEntry {
                            peers,
                            completed: item.completed,
                            seeders: item.seeders,
                            leechers: item.leechers,
                        };
                        assert(e@ =~= tp_entry(*item, model_peers(tp_peers(*self), k)));
                        Some(e)
                    },
                };
                Some(self.reply(TorrentsPeersAction::TorrentGet, TorrentsPeersData::Torrent(e)))
            },
            TorrentsPeersRequest::PeerAdd { info_hash, peer_id, torrent_peer, completed } => {
                let (c, e) = self.peer_add(info_hash, peer_id, torrent_peer, completed);
                proof {
                    let k = key_of(info_hash@);
                    if counts_match(before.torrents@, tp_peers(before)) && before.torrents@.contains_key(k) {
                        lemma_announce_keeps_counts(before.torrents@, tp_peers(before), k, key_of(peer_id@), torrent_peer, completed);
                    }
                }
                Some(
                    self.reply(
                        TorrentsPeersAction::PeerAdd,
                        TorrentsPeersData::PeerAdded {
                            added_seeder: c.0,
                            added_leecher: c.1,
                            removed_seeder: c.2,
                            removed_leecher: c.3,
                            completed_applied: c.4,
                            torrent_entry: e,
                        },
                    ),
                )
            },
            TorrentsPeersRequest::PeerRemove { info_hash, peer_id } => {
                let (seed, leech, e) = self.peer_remove(info_hash, peer_id);
                proof {
                    let k = key_of(info_hash@);
                    if counts_match(before.torrents@, tp_peers(before)) && before.torrents@.contains_key(k) {
                        lemma_departure_keeps_counts(before.torrents@, tp_peers(before), k, key_of(peer_id@));
                    }
                }
                Some(
                    self.reply(
                        TorrentsPeersAction::PeerRemove,
                        TorrentsPeersData::PeerRemoved {
                            removed_seeder: seed,
                            removed_leecher: leech,
                            torrent_entry: e,
                        },
                    ),
                )
            },
            TorrentsPeersRequest::Shutdown => {
                let n = self.torrents.len();
                Some(
                    TorrentsPeersReply {
                        action: TorrentsPeersAction::Shutdown,
                        data: TorrentsPeersData::Nothing,
                        torrent_count: n,
                        peer_count: None,
                        stop: true,
                    },
                )
            },
            TorrentsPeersRequest::Unknown => Some(
                self.reply(TorrentsPeersAction::Error, TorrentsPeersData::UnknownAction),
            ),
            _ => None,
        }
    }
}

/// Whether taking the peer out keeps the torrent's counters within `i64`.
pub open spec fn tp_remove_fits(s: TorrentsPeersState, k: HashKey, pk: HashKey) -> bool {
    s.torrents@.contains_key(k) && model_peers(tp_peers(s), k).contains_key(pk) ==> {
        &&& crate::tracker::fits_i64(s.torrents@[k].seeders - 1)
        &&& crate::tracker::fits_i64(s.torrents@[k].leechers - 1)
    }
}

proof fn lemma_total_peers_nonneg(m: Map<HashKey, BTreeMap<HashKey, TorrentPeer>>)
    requires
        m.dom().finite(),
    ensures
        0 <= total_peers(m),
{
    crate::tracker::keyed::lemma_map_sum_nonneg(m, |l: BTreeMap<HashKey, TorrentPeer>| list_len(l));
}

/// Taking a torrent's list out does not add peers.
proof fn lemma_total_peers_remove(m: Map<HashKey, BTreeMap<HashKey, TorrentPeer>>, k: HashKey)
    requires
        m.dom().finite(),
    ensures
        total_peers(m.remove(k)) <= total_peers(m),
{
    let f = |l: BTreeMap<HashKey, TorrentPeer>| list_len(l);
    if m.contains_key(k) {
        lemma_map_sum_remove(m, f, k);
    } else {
        lemma_map_sum_basics(m, f, k);
    }
}

/// Replacing a torrent's list changes the total by the change in its size.
proof fn lemma_total_peers_insert(m: Map<HashKey, BTreeMap<HashKey, TorrentPeer>>, k: HashKey, l: BTreeMap<HashKey, TorrentPeer>)
    requires
        m.dom().finite(),
    ensures
        total_peers(m.insert(k, l)) == total_peers(m) - (if m.contains_key(k) { list_len(m[k]) } else { 0 }) + list_len(l),
{
    let f = |l: BTreeMap<HashKey, TorrentPeer>| list_len(l);
    lemma_map_sum_insert(m, f, k, l);
}

impl TorrentsPeersState {
    fn peer_add(&mut self, info_hash: InfoHash, peer_id: PeerId, torrent_peer: TorrentPeer, completed: bool) -> (r: ((bool, bool, bool, bool, bool), TorrentEntry))
        requires
            tp_add_fits(*old(self), key_of(info_hash@), key_of(peer_id@), torrent_peer, completed),
        ensures
            total_peers(final(self).peers@) <= total_peers(old(self).peers@) + 1,
            ({
                let k = key_of(info_hash@);
                let pk = key_of(peer_id@);
                let c = tp_change(*old(self), k, pk, torrent_peer, completed);
                let list = model_peers(tp_peers(*old(self)), k).insert(pk, torrent_peer);
                let item = changed_item(old(self).torrents@[k], c);
                let (added_seeder, added_leecher, removed_seeder, removed_leecher, completed_applied) = r.0;
                if old(self).torrents@.contains_key(k) {
                    &&& final(self).torrents@ == old(self).torrents@.insert(k, item)
                    &&& tp_peers(*final(self)) == tp_peers(*old(self)).insert(k, list)
                    &&& c == (PeerChange { added_seeder, added_leecher, removed_seeder, removed_leecher, completed_applied })
                    &&& r.1@ == tp_entry(item, list)
                } else {
                    &&& *final(self) == *old(self)
                    &&& !added_seeder && !added_leecher && !removed_seeder && !removed_leecher && !completed_applied
                    &&& r.1@ == empty_entry()
                }
            }),
    {
        let k = hash_key(&info_hash.0);
        let pk = hash_key(&peer_id.0);
        let ghost old_peers = self.peers@;
        let mut added_seeder = false;
        let mut added_leecher = false;
        let mut removed_seeder = false;
        let mut removed_leecher = false;
        let mut completed_applied = false;
        let data_opt: Option<TorrentEntryItem> = match self.torrents.get(&k) {
            Some(d) => Some(*d),
            None => None,
        };
        let torrent = match data_opt {
            None => TorrentEntry::new(),
            Some(data) => {
                let mut peers_list = match self.peers.get(&k) {
                    None => BTreeMap::new(),
                    Some(list) => list.clone(),
                };
                let ghost old_list = peers_list@;
                let mut data_torrent = data;
                let known: Option<TorrentPeer> = match peers_list.get(&pk) {
                    Some(p) => Some(*p),
                    None => None,
                };
                match known {
                    None => {
                        if torrent_peer.left.0 == 0 {
                            data_torrent.seeders = data_torrent.seeders + 1;
                            added_seeder = true;
                            if completed {
                                data_torrent.completed = data_torrent.completed + 1;
                                completed_applied = true;
                            }
                        } else {
                            data_torrent.leechers = data_torrent.leechers + 1;
                            added_leecher = true;
                        }
                        peers_list.insert(pk, torrent_peer);
                    },
                    Some(data_peer) => {
                        if data_peer.left.0 == 0 && torrent_peer.left.0 != 0 {
                            data_torrent.seeders = data_torrent.seeders - 1;
                            data_torrent.leechers = data_torrent.leechers + 1;
                            removed_seeder = true;
                            added_leecher = true;
                        } else if data_peer.left.0 != 0 && torrent_peer.left.0 == 0 {
                            data_torrent.seeders = data_torrent.seeders + 1;
                            data_torrent.leechers = data_torrent.leechers - 1;
                            added_seeder = true;
                            removed_leecher = true;
                            if completed {
                                data_torrent.completed = data_torrent.completed + 1;
                                completed_applied = true;
                            }
                        }
                        peers_list.insert(pk, torrent_peer);
                    },
                }
                self.torrents.insert(k, data_torrent);
                let cl = peers_list.clone();
                let ghost g = cl;
                self.peers.insert(k, cl);
                proof {
                    lemma_total_peers_insert(old_peers, k, g);
                    assert(peers_list@.dom() =~= old_list.dom().insert(pk));
                    assert(old_list.dom().finite());
                    assert(peers_list@.len() <= old_list.len() + 1);
                    if old_peers.contains_key(k) {
                        assert(old_list == old_peers[k]@);
                        assert(list_len(old_peers[k]) == old_list.len());
                    } else {
                        assert(old_list.dom() =~= Set::<HashKey>::empty());
                    }
                    assert(list_len(g) == peers_list@.len());
                    assert(tp_peers(*self) =~= tp_peers(*old(self)).insert(k, peers_list@));
                }
                TorrentEntry {
                    peers: peers_list,
                    completed: data_torrent.completed,
                    seeders: data_torrent.seeders,
                    leechers: data_torrent.leechers,
                }
            },
        };
        assert(torrent@ =~= (if old(self).torrents@.contains_key(k) {
            tp_entry(
                changed_item(old(self).torrents@[k], tp_change(*old(self), k, pk, torrent_peer, completed)),
                model_peers(tp_peers(*old(self)), k).insert(pk, torrent_peer),
            )
        } else {
            empty_entry()
        }));
        ((added_seeder, added_leecher, removed_seeder, removed_leecher, completed_applied), torrent)
    }

    fn peer_remove(&mut self, info_hash: InfoHash, peer_id: PeerId) -> (r: (bool, bool, TorrentEntry))
        requires
            tp_remove_fits(*old(self), key_of(info_hash@), key_of(peer_id@)),
        ensures
            total_peers(final(self).peers@) <= total_peers(old(self).peers@),
            ({
                let k = key_of(info_hash@);
                let pk = key_of(peer_id@);
                let list = model_peers(tp_peers(*old(self)), k);
                let present = list.contains_key(pk);
                let seed = present && list[pk].is_seed();
                let leech = present && !list[pk].is_seed();
                let list2 = list.remove(pk);
                let old_item = old(self).torrents@[k];
                let item = TorrentEntryItem {
                    completed: old_item.completed,
                    seeders: (old_item.seeders - one_if(seed)) as i64,
                    leechers: (old_item.leechers - one_if(leech)) as i64,
                };
                if old(self).torrents@.contains_key(k) {
                    &&& final(self).torrents@ == old(self).torrents@.insert(k, item)
                    &&& tp_peers(*final(self)) == (if list2.len() == 0 {
                        tp_peers(*old(self)).remove(k)
                    } else {
                        tp_peers(*old(self)).insert(k, list2)
                    })
                    &&& r.0 == seed
                    &&& r.1 == leech
                    &&& r.2@ == tp_entry(item, list2)
                } else {
                    &&& *final(self) == *old(self)
                    &&& !r.0 && !r.1
                    &&& r.2@ == empty_entry()
                }
            }),
    {
        let k = hash_key(&info_hash.0);
        let pk = hash_key(&peer_id.0);
        let ghost old_peers = self.peers@;
        let mut removed_seeder = false;
        let mut removed_leecher = false;
        let data_opt: Option<TorrentEntryItem> = match self.torrents.get(&k) {
            Some(d) => Some(*d),
            None => None,
        };
        match data_opt {
            None => (false, false, TorrentEntry::new()),
            Some(data) => {
                let mut peers_list = match self.peers.get(&k) {
                    None => BTreeMap::new(),
                    Some(list) => list.clone(),
                };
                let ghost old_list = peers_list@;
                let mut data_torrent = data;
                let known: Option<TorrentPeer> = match peers_list.get(&pk) {
                    Some(p) => Some(*p),
                    None => None,
                };
                if let Some(peer) = known {
                    if peer.left.0 == 0 {
                        peers_list.remove(&pk);
                        data_torrent.seeders = data_torrent.seeders - 1;
                        removed_seeder = true;
                    } else {
                        peers_list.remove(&pk);
                        data_torrent.leechers = data_torrent.leechers - 1;
                        removed_leecher = true;
                    }
                }
                self.torrents.insert(k, data_torrent);
                if peers_list.is_empty() {
                    self.peers.remove(&k);
                    proof {
                        lemma_total_peers_remove(old_peers, k);
                    }
                } else {
                    let cl = peers_list.clone();
                    let ghost g = cl;
                    self.peers.insert(k, cl);
                    proof {
                        lemma_total_peers_insert(old_peers, k, g);
                        if old_peers.contains_key(k) {
                            assert(old_list == old_peers[k]@);
                            assert(peers_list@.dom().len() <= old_list.dom().len()) by {
                                if old_list.contains_key(pk) {
                                    assert(peers_list@.dom() =~= old_list.dom().remove(pk));
                                } else {
                                    assert(peers_list@.dom() =~= old_list.dom());
                                }
                            }
                        } else {
                            assert(old_list.dom() =~= Set::<HashKey>::empty());
                            assert(peers_list@.dom() =~= Set::<HashKey>::empty());
                        }
                    }
                }
                proof {
                    let list = model_peers(tp_peers(*old(self)), k);
                    assert(old_list =~= list);
                    assert(peers_list@ =~= list.remove(pk));
                    if list.remove(pk).len() == 0 {
                        assert(tp_peers(*self) =~= tp_peers(*old(self)).remove(k));
                    } else {
                        assert(tp_peers(*self) =~= tp_peers(*old(self)).insert(k, list.remove(pk)));
                    }
                }
                let e = TorrentEntry {
                    peers: peers_list,
                    completed: data_torrent.completed,
                    seeders: data_torrent.seeders,
                    leechers: data_torrent.leechers,
                };
                (removed_seeder, removed_leecher, e)
            },
        }
    }
}

/// With nonnegative terms, a prefix sums to no more than the whole.
proof fn lemma_seq_sum_prefix_le<V>(s: Seq<(HashKey, V)>, f: spec_fn(V) -> int, n: int)
    requires
        0 <= n <= s.len(),
        forall|i: int| 0 <= i < s.len() ==> 0 <= #[trigger] f(s[i].1),
    ensures
        seq_sum(s.take(n), f) <= seq_sum(s, f),
        0 <= seq_sum(s.take(n), f),
    decreases s.len() - n,
{
    let t = s.take(n);
    assert forall|i: int| 0 <= i < t.len() implies 0 <= #[trigger] f(t[i].1) by {
        assert(t[i] == s[i]);
    }
    lemma_seq_sum_nonneg(t, f);
    if n < s.len() {
        lemma_seq_sum_step(s, f, n);
        lemma_seq_sum_prefix_le(s, f, n + 1);
    } else {
        assert(s.take(n) =~= s);
        lemma_seq_sum_nonneg(s, f);
    }
}

proof fn lemma_seq_sum_nonneg<V>(s: Seq<(HashKey, V)>, f: spec_fn(V) -> int)
    requires
        forall|i: int| 0 <= i < s.len() ==> 0 <= #[trigger] f(s[i].1),
    ensures
        0 <= seq_sum(s, f),
    decreases s.len(),
{
    if s.len() > 0 {
        let init = s.drop_last();
        assert forall|i: int| 0 <= i < init.len() implies 0 <= #[trigger] f(init[i].1) by {
            assert(init[i] == s[i]);
        }
        lemma_seq_sum_nonneg(init, f);
        assert(0 <= f(s[s.len() - 1].1));
    }
}


/// Whether `x + 1` (when `up`) and `x - 1` (when `down`) stay within `i64`.
fn steps_fit_i64(x: i64, up: bool, down: bool) -> (r: bool)
    ensures
        r == (crate::tracker::fits_i64(x + one_if(up)) && crate::tracker::fits_i64(x - one_if(down))),
{
    (!up || x < i64::MAX) && (!down || x > i64::MIN)
}

impl TorrentsPeersState {
    /// Whether announcing `torrent_peer` under `peer_id` to `info_hash`
    /// keeps the torrent's counters within `i64`.
    pub fn add_fits_now(&self, info_hash: InfoHash, peer_id: PeerId, torrent_peer: TorrentPeer, completed: bool) -> (r: bool)
        ensures
            r == tp_add_fits(*self, key_of(info_hash@), key_of(peer_id@), torrent_peer, completed),
    {
        let k = hash_key(&info_hash.0);
        let pk = hash_key(&peer_id.0);
        let item = match self.torrents.get(&k) {
            Some(d) => *d,
            None => {
                return true;
            },
        };
        let known: Option<TorrentPeer> = match self.peers.get(&k) {
            Some(list) => match list.get(&pk) {
                Some(p) => Some(*p),
                None => None,
            },
            None => None,
        };
        let seed = torrent_peer.left.0 == 0;
        let (added_seeder, added_leecher, removed_seeder, removed_leecher, completed_applied) = match known {
            None => if seed {
                (true, false, false, false, completed)
            } else {
                (false, true, false, false, false)
            },
            Some(o) => {
                let was_seed = o.left.0 == 0;
                if was_seed && !seed {
                    (false, true, true, false, false)
                } else if !was_seed && seed {
                    (true, false, false, true, completed)
                } else {
                    (false, false, false, false, false)
                }
            },
        };
        proof {
            let c = tp_change(*self, k, pk, torrent_peer, completed);
            assert(c.added_seeder == added_seeder && c.added_leecher == added_leecher);
            assert(c.removed_seeder == removed_seeder && c.removed_leecher == removed_leecher);
            assert(c.completed_applied == completed_applied);
        }
        steps_fit_i64(item.completed, completed_applied, false) && steps_fit_i64(
            item.seeders,
            added_seeder,
            removed_seeder,
        ) && steps_fit_i64(item.leechers, added_leecher, removed_leecher)
    }

    /// Whether taking the peer `peer_id` out of `info_hash` keeps the
    /// torrent's counters within `i64`.
    pub fn remove_fits_now(&self, info_hash: InfoHash, peer_id: PeerId) -> (r: bool)
        ensures
            r == tp_remove_fits(*self, key_of(info_hash@), key_of(peer_id@)),
    {
        let k = hash_key(&info_hash.0);
        let pk = hash_key(&peer_id.0);
        let item = match self.torrents.get(&k) {
            Some(d) => *d,
            None => {
                return true;
            },
        };
        let present = match self.peers.get(&k) {
            Some(list) => list.contains_key(&pk),
            None => false,
        };
        !present || (item.seeders > i64::MIN && item.leechers > i64::MIN)
    }

    /// Whether the actor holds fewer than `u64::MAX` peers in all.
    pub fn peer_total_below_max(&self) -> (r: bool)
        ensures
            r == (total_peers(self.peers@) < u64::MAX),
    {
        let ghost rem = vstd::std_specs::btree::spec_btree_map_iter(&self.peers).remaining();
        let ghost w = owned_entries(rem);
        let ghost f = |l: BTreeMap<HashKey, TorrentPeer>| list_len(l);
        proof {
            lemma_walk(&self.peers, rem);
            lemma_entries_sum(self.peers@, w, f);
        }
        let mut count: u64 = 0;
        let mut below = true;
        for kv in it: self.peers.iter()
            invariant
                rem == vstd::std_specs::btree::spec_btree_map_iter(&self.peers).remaining(),
                w == owned_entries(rem),
                it.seq() == rem,
                f == (|l: BTreeMap<HashKey, TorrentPeer>| list_len(l)),
                seq_sum(w, f) == total_peers(self.peers@),
                forall|i: int| 0 <= i < w.len() ==> 0 <= #[trigger] f(w[i].1),
                below ==> count == seq_sum(w.take(it.index() as int), f) && count < u64::MAX,
                !below ==> seq_sum(w, f) >= u64::MAX,
        {
            let ghost idx = it.index();
            proof {
                lemma_seq_sum_step(w, f, idx as int);
                lemma_seq_sum_prefix_le(w, f, idx + 1);
                assert(w[idx as int] == (*kv.0, *kv.1));
            }
            if below {
                let n = kv.1.len() as u64;
                if n >= u64::MAX - count {
                    below = false;
                } else {
                    count = count + n;
                }
            }
        }
        proof {
            assert(w.take(w.len() as int) =~= w);
        }
        below
    }
}

} // verus!
