//! The actor that owns the torrents' counters.

use vstd::prelude::*;
use std::collections::BTreeMap;
use vstd::std_specs::iter::IteratorSpec;
use crate::tracker::keyed::{HashKey, hash_key, key_bytes, key_of, lemma_walk, owned_entries};
use crate::tracker_channels::store::removed_count;
use crate::tracker_objects::torrents::{
    TorrentEntry, TorrentEntryItem, TorrentEntryModel, entry_view, hash_keys, keyed_items,
};
use crate::tracker_objects::updates::{insert_all, remove_all};
use crate::udp::types::InfoHash;

verus! {

broadcast use vstd::std_specs::btree::group_btree_axioms;

/// A request to the torrents actor.
pub enum TorrentsRequest {
    AddSingle { info_hash: InfoHash, entry: TorrentEntryItem },
    AddMulti { hashes: Vec<(InfoHash, TorrentEntryItem)> },
    GetSingle { info_hash: InfoHash },
    GetMulti { hashes: Vec<InfoHash> },
    GetMultiChunks { skip: u64, amount: u64 },
    DeleteSingle { info_hash: InfoHash },
    DeleteMulti { hashes: Vec<InfoHash> },
    Shutdown,
    /// An action the actor does not know.
    Unknown,
}

/// The action a reply names: the request's own, or an error.
#[derive(PartialEq, Eq, Structural, Clone, Copy, Debug)]
pub enum TorrentsAction {
    AddSingle,
    AddMulti,
    GetSingle,
    GetMulti,
    GetMultiChunks,
    DeleteSingle,
    DeleteMulti,
    Shutdown,
    Error,
}

/// What a reply of the torrents actor carries.
pub enum TorrentsData {
    Nothing,
    Item(Option<TorrentEntryItem>),
    Entries(Vec<(InfoHash, Option<TorrentEntry>)>),
    Chunk(Vec<(InfoHash, i64)>),
    Removed(bool),
    RemovedCount(u64),
    UnknownAction,
}

/// A reply of the torrents actor: the action, its data, the number of
/// torrents, and whether the actor stops.
pub struct TorrentsReply {
    pub action: TorrentsAction,
    pub data: TorrentsData,
    pub torrent_count: i64,
    pub stop: bool,
}

/// The counters that the actor owns, by torrent.
pub struct TorrentsState {
    pub torrents: BTreeMap<HashKey, TorrentEntryItem>,
}

/// The entry of a torrent as this actor gives it: its counters, no peers.
pub open spec fn item_entry(m: Map<HashKey, TorrentEntryItem>, k: HashKey) -> Option<TorrentEntryModel> {
    if m.contains_key(k) {
        Some(
            TorrentEntryModel {
                peers: Map::empty(),
                completed: m[k].completed,
                seeders: m[k].seeders,
                leechers: m[k].leechers,
            },
        )
    } else {
        None
    }
}

/// The counters of `k`, if any.
pub open spec fn lookup_item(m: Map<HashKey, TorrentEntryItem>, k: HashKey) -> Option<TorrentEntryItem> {
    if m.contains_key(k) {
        Some(m[k])
    } else {
        None
    }
}

impl TorrentsState {
    /// No torrents.
    pub fn new() -> (r: TorrentsState)
        ensures
            r.torrents@ == Map::<HashKey, TorrentEntryItem>::empty(),
    {
        TorrentsState { torrents: BTreeMap::new() }
    }

    fn reply(&self, action: TorrentsAction, data: TorrentsData, stop: bool) -> (r: TorrentsReply)
        ensures
            r.action == action,
            r.data == data,
            r.stop == stop,
            r.torrent_count == self.torrents@.len() as i64,
    {
        let n = self.torrents.len();
        TorrentsReply { action, data, torrent_count: n as i64, stop }
    }

    /// Answers one request.
    pub fn handle(&mut self, request: TorrentsRequest) -> (r: TorrentsReply)
        ensures
            r.stop == (request is Shutdown),
            r.torrent_count == final(self).torrents@.len() as i64,
            match request {
                TorrentsRequest::AddSingle { info_hash, entry } => {
                    &&& final(self).torrents@ == old(self).torrents@.insert(key_of(info_hash@), entry)
                    &&& r.action == TorrentsAction::AddSingle
                    &&& r.data is Nothing
                },
                TorrentsRequest::AddMulti { hashes } => {
                    &&& final(self).torrents@ == insert_all(old(self).torrents@, keyed_items(hashes@))
                    &&& r.action == TorrentsAction::AddMulti
                    &&& r.data is Nothing
                },
                TorrentsRequest::GetSingle { info_hash } => {
                    &&& final(self).torrents@ == old(self).torrents@
                    &&& r.action == TorrentsAction::GetSingle
                    &&& r.data == TorrentsData::Item(lookup_item(old(self).torrents@, key_of(info_hash@)))
                },
                TorrentsRequest::GetMulti { hashes } => {
                    &&& final(self).torrents@ == old(self).torrents@
                    &&& r.action == TorrentsAction::GetMulti
                    &&& r.data matches TorrentsData::Entries(v) && v@.len() == hashes@.len() && forall|i: int|
                        0 <= i < hashes@.len() ==> (#[trigger] v@[i]).0 == hashes@[i] && entry_view(v@[i].1)
                            == item_entry(old(self).torrents@, key_of(hashes@[i]@))
                },
                TorrentsRequest::GetMultiChunks { skip, amount } => {
                    let w = owned_entries(vstd::std_specs::btree::spec_btree_map_iter(&old(self).torrents).remaining());
                    let lo: int = if skip < w.len() { skip as int } else { w.len() as int };
                    let hi: int = if skip + amount < w.len() { skip + amount } else { w.len() as int };
                    &&& final(self).torrents@ == old(self).torrents@
                    &&& r.action == TorrentsAction::GetMultiChunks
                    &&& r.data matches TorrentsData::Chunk(v) && v@.len() == hi - lo && forall|i: int|
                        0 <= i < v@.len() ==> key_of((#[trigger] v@[i]).0@) == w[lo + i].0 && v@[i].1 == w[lo + i].1.completed
                },
                TorrentsRequest::DeleteSingle { info_hash } => {
                    &&& final(self).torrents@ == old(self).torrents@.remove(key_of(info_hash@))
                    &&& r.action == TorrentsAction::DeleteSingle
                    &&& r.data == TorrentsData::Removed(old(self).torrents@.contains_key(key_of(info_hash@)))
                },
                TorrentsRequest::DeleteMulti { hashes } => {
                    &&& final(self).torrents@ == remove_all(old(self).torrents@, hash_keys(hashes@))
                    &&& r.action == TorrentsAction::DeleteMulti
                    &&& r.data matches TorrentsData::RemovedCount(n) && n == removed_count(old(self).torrents@, hash_keys(hashes@))
                },
                TorrentsRequest::Shutdown => {
                    &&& final(self).torrents@ == old(self).torrents@
                    &&& r.action == TorrentsAction::Shutdown
                    &&& r.data is Nothing
                },
                TorrentsRequest::Unknown => {
                    &&& final(self).torrents@ == old(self).torrents@
                    &&& r.action == TorrentsAction::Error
                    &&& r.data is UnknownAction
                },
            },
    {
        match request {
            TorrentsRequest::AddSingle { info_hash, entry } => {
                let k = hash_key(&info_hash.0);
                self.torrents.insert(k, entry);
                self.reply(TorrentsAction::AddSingle, TorrentsData::Nothing, false)
            },
            TorrentsRequest::AddMulti { hashes } => {
                let ghost start = self.torrents@;
                let ghost es = keyed_items(hashes@);
                let mut i: usize = 0;
                while i < hashes.len()
                    invariant
                        i <= hashes@.len(),
                        es == keyed_items(hashes@),
                        self.torrents@ == insert_all(start, es.take(i as int)),
                    decreases hashes@.len() - i,
                {
                    let (h, item) = hashes[i];
                    let k = hash_key(&h.0);
                    proof {
                        assert(es.take(i + 1).drop_last() =~= es.take(i as int));
                        assert(es.take(i + 1).last() == (k, item));
                    }
                    self.torrents.insert(k, item);
                    i = i + 1;
                }
                assert(es.take(hashes@.len() as int) =~= es);
                self.reply(TorrentsAction::AddMulti, TorrentsData::Nothing, false)
            },
            TorrentsRequest::GetSingle { info_hash } => {
                let k = hash_key(&info_hash.0);
                let v = match self.torrents.get(&k) {
                    Some(item) => Some(*item),
                    None => None,
                };
                self.reply(TorrentsAction::GetSingle, TorrentsData::Item(v), false)
            },
            TorrentsRequest::GetMulti { hashes } => {
                let mut v: Vec<(InfoHash, Option<TorrentEntry>)> = Vec::new();
                let mut i: usize = 0;
                while i < hashes.len()
                    invariant
                        i <= hashes@.len(),
                        v@.len() == i,
                        forall|j: int|
                            0 <= j < i ==> (#[trigger] v@[j]).0 == hashes@[j] && entry_view(v@[j].1)
                                == item_entry(self.torrents@, key_of(hashes@[j]@)),
                    decreases hashes@.len() - i,
                {
                    let h = hashes[i];
                    let k = hash_key(&h.0);
                    let e = match self.torrents.get(&k) {
                        None => None,
                        Some(item) => {
                            let e = TorrentEntry {
                                peers: BTreeMap::new(),
                                completed: item.completed,
                                seeders: item.seeders,
                                leechers: item.leechers,
                            };
                            assert(e@ =~= item_entry(self.torrents@, k)->0);
                            Some(e)
                        },
                    };
                    v.push((h, e));
                    i = i + 1;
                }
                self.reply(TorrentsAction::GetMulti, TorrentsData::Entries(v), false)
            },
            TorrentsRequest::GetMultiChunks { skip, amount } => {
                let v = self.chunk(skip, amount);
                self.reply(TorrentsAction::GetMultiChunks, TorrentsData::Chunk(v), false)
            },
            TorrentsRequest::DeleteSingle { info_hash } => {
                let k = hash_key(&info_hash.0);
                let removed = match self.torrents.remove(&k) {
                    None => false,
                    Some(_) => true,
                };
                self.reply(TorrentsAction::DeleteSingle, TorrentsData::Removed(removed), false)
            },
            TorrentsRequest::DeleteMulti { hashes } => {
                let ghost start = self.torrents@;
                let ghost ks = hash_keys(hashes@);
                let mut removed: u64 = 0;
                let mut i: usize = 0;
                while i < hashes.len()
                    invariant
                        i <= hashes@.len(),
                        ks == hash_keys(hashes@),
                        self.torrents@ == remove_all(start, ks.take(i as int)),
                        removed == removed_count(start, ks.take(i as int)),
                        removed <= i,
                    decreases hashes@.len() - i,
                {
                    let k = hash_key(&hashes[i].0);
                    proof {
                        assert(ks.take(i + 1).drop_last() =~= ks.take(i as int));
                        assert(ks.take(i + 1).last() == k);
                    }
                    match self.torrents.remove(&k) {
                        None => {},
                        Some(_) => {
                            removed = removed + 1;
                        },
                    }
                    i = i + 1;
                }
                assert(ks.take(hashes@.len() as int) =~= ks);
                self.reply(TorrentsAction::DeleteMulti, TorrentsData::RemovedCount(removed), false)
            },
            TorrentsRequest::Shutdown => self.reply(TorrentsAction::Shutdown, TorrentsData::Nothing, true),
            TorrentsRequest::Unknown => self.reply(TorrentsAction::Error, TorrentsData::UnknownAction, false),
        }
    }

    fn chunk(&self, skip: u64, amount: u64) -> (r: Vec<(InfoHash, i64)>)
        ensures
            ({
                let w = owned_entries(vstd::std_specs::btree::spec_btree_map_iter(&self.torrents).remaining());
                let lo: int = if skip < w.len() { skip as int } else { w.len() as int };
                let hi: int = if skip + amount < w.len() { skip + amount } else { w.len() as int };
                &&& r@.len() == hi - lo
                &&& forall|i: int|
                    0 <= i < r@.len() ==> key_of((#[trigger] r@[i]).0@) == w[lo + i].0 && r@[i].1
                        == w[lo + i].1.completed
            }),
    {
        let ghost rem = vstd::std_specs::btree::spec_btree_map_iter(&self.torrents).remaining();
        let ghost w = owned_entries(rem);
        proof {
            lemma_walk(&self.torrents, rem);
        }
        let mut r: Vec<(InfoHash, i64)> = Vec::new();
        let mut current_count: u64 = 0;
        let mut handled_count: u64 = 0;
        let ghost lo: int = if skip < w.len() { skip as int } else { w.len() as int };
        let ghost hi: int = if skip + amount < w.len() { skip + amount } else { w.len() as int };
        for kv in it: self.torrents.iter()
            invariant_except_break
                current_count == it.index(),
                handled_count == (if it.index() <= skip { 0 } else { it.index() - skip }),
                it.index() == w.len() ==> r@.len() == hi - lo,
            invariant
                rem == vstd::std_specs::btree::spec_btree_map_iter(&self.torrents).remaining(),
                w == owned_entries(rem),
                it.seq() == rem,
                w.len() == self.torrents@.len(),
                self.torrents@.len() == self.torrents.len(),
                lo == (if skip < w.len() { skip as int } else { w.len() as int }),
                hi == (if skip + amount < w.len() { skip + amount } else { w.len() as int }),
                handled_count <= amount,
                r@.len() == handled_count,
                forall|i: int|
                    0 <= i < r@.len() ==> key_of((#[trigger] r@[i]).0@) == w[lo + i].0 && r@[i].1
                        == w[lo + i].1.completed,
            ensures
                r@.len() == hi - lo,
                forall|i: int|
                    0 <= i < r@.len() ==> key_of((#[trigger] r@[i]).0@) == w[lo + i].0 && r@[i].1
                        == w[lo + i].1.completed,
        {
            if current_count < skip {
                current_count = current_count + 1;
            } else {
                if handled_count >= amount {
                    break;
                }
                let hash = InfoHash(key_bytes(*kv.0));
                r.push((hash, kv.1.completed));
                current_count = current_count + 1;
                handled_count = handled_count + 1;
            }
        }
        r
    }
}

} // verus!
