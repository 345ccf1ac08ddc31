//! The actor that owns the whitelist, the blacklist and the keys.

use vstd::prelude::*;
use std::collections::BTreeMap;
use vstd::std_specs::iter::IteratorSpec;
use crate::tracker::keyed::{HashKey, key_of, lemma_entries_sum, lemma_seq_sum_step, lemma_walk, map_sum, owned_entries, seq_sum};
use crate::tracker_channels::store::{
    add_multi, get_multi, get_single, lookup_num, looked_up, remove_multi, remove_single,
    removed_count,
};
use crate::tracker_objects::torrents::hash_keys;
use crate::tracker_objects::updates::{entries_of, insert_all, remove_all};
use crate::tracker_objects::whitelist::{ListKind, keyed_values};
use crate::udp::types::InfoHash;

verus! {

broadcast use vstd::std_specs::btree::group_btree_axioms;

/// One for a value that is 1 (an entry stored before), else zero.
pub open spec fn is_stored(v: i64) -> int {
    if v == 1 {
        1
    } else {
        0
    }
}

/// How many entries of a list are flagged as stored (value 1).
pub open spec fn stored_count(m: Map<HashKey, i64>) -> int {
    map_sum(m, |v: i64| is_stored(v))
}

/// Counts the entries of a list whose value is 1.
pub fn wbk_count(torrents: &BTreeMap<HashKey, i64>) -> (r: u64)
    ensures
        r == stored_count(torrents@),
{
    let ghost rem = vstd::std_specs::btree::spec_btree_map_iter(torrents).remaining();
    let ghost w = owned_entries(rem);
    let ghost f = |v: i64| is_stored(v);
    proof {
        lemma_walk(torrents, rem);
    }
    let mut count: u64 = 0;
    for kv in it: torrents.iter()
        invariant
            rem == vstd::std_specs::btree::spec_btree_map_iter(torrents).remaining(),
            w == owned_entries(rem),
            it.seq() == rem,
            w.len() == torrents@.len(),
            torrents@.len() == torrents.len(),
            f == (|v: i64| is_stored(v)),
            count == seq_sum(w.take(it.index() as int), f),
            count <= it.index(),
            it.index() == w.len() ==> count == seq_sum(w, f),
    {
        proof {
            lemma_seq_sum_step(w, f, it.index() as int);
        }
        if *kv.1 == 1i64 {
            count = count + 1;
        }
        assert(w.take(w.len() as int) =~= w);
    }
    proof {
        lemma_entries_sum(torrents@, w, f);
    }
    count
}

/// A request to the list actor. `value` is a flag for the two lists and an
/// expiry time for the keys.
pub enum WbkRequest {
    AddSingle { list: ListKind, info_hash: InfoHash, value: i64 },
    AddMulti { list: ListKind, entries: Vec<(InfoHash, i64)> },
    GetSingle { list: ListKind, info_hash: InfoHash },
    GetMulti { list: ListKind, hashes: Vec<InfoHash> },
    GetAll { list: ListKind },
    RemoveSingle { list: ListKind, info_hash: InfoHash },
    RemoveMulti { list: ListKind, hashes: Vec<InfoHash> },
    Clear { list: ListKind },
    Shutdown,
    /// An action the actor does not know.
    Unknown,
}

/// The action a reply names: the request's own, or an error.
#[derive(PartialEq, Eq, Structural, Clone, Copy, Debug)]
pub enum WbkAction {
    AddSingle(ListKind),
    AddMulti(ListKind),
    GetSingle(ListKind),
    GetMulti(ListKind),
    GetAll(ListKind),
    RemoveSingle(ListKind),
    RemoveMulti(ListKind),
    Clear(ListKind),
    Shutdown,
    Error,
}

/// What a reply carries.
pub enum WbkData {
    Nothing,
    Value(Option<i64>),
    Values(Vec<(InfoHash, Option<i64>)>),
    All(Vec<(InfoHash, i64)>),
    Removed(bool),
    RemovedCount(u64),
    UnknownAction,
}

/// A reply of the list actor: the action, its data, the stored counts of
/// the whitelist, the blacklist and the keys, and whether the actor stops.
pub struct WbkReply {
    pub action: WbkAction,
    pub data: WbkData,
    pub whitelist_count: u64,
    pub blacklist_count: u64,
    pub keys_count: u64,
    pub stop: bool,
}

/// The three lists that the actor owns.
pub struct WbkState {
    pub whitelist: BTreeMap<HashKey, i64>,
    pub blacklist: BTreeMap<HashKey, i64>,
    pub keys: BTreeMap<HashKey, i64>,
}

/// The list `kind` of the actor.
pub open spec fn wbk_list(s: WbkState, kind: ListKind) -> Map<HashKey, i64> {
    match kind {
        ListKind::Whitelist => s.whitelist@,
        ListKind::Blacklist => s.blacklist@,
        ListKind::Keys => s.keys@,
    }
}

/// The map that holds the list `kind`.
pub open spec fn wbk_field(s: WbkState, kind: ListKind) -> BTreeMap<HashKey, i64> {
    match kind {
        ListKind::Whitelist => s.whitelist,
        ListKind::Blacklist => s.blacklist,
        ListKind::Keys => s.keys,
    }
}

/// The other lists are as they were.
pub open spec fn others_unchanged(a: WbkState, b: WbkState, kind: ListKind) -> bool {
    forall|other: ListKind| other != kind ==> #[trigger] wbk_field(b, other) == wbk_field(a, other)
}

/// The reply carries the counts of `s`.
pub open spec fn counts_of(r: WbkReply, s: WbkState) -> bool {
    &&& r.whitelist_count == stored_count(s.whitelist@)
    &&& r.blacklist_count == stored_count(s.blacklist@)
    &&& r.keys_count == stored_count(s.keys@)
}

impl WbkState {
    /// Three empty lists.
    pub fn new() -> (r: WbkState)
        ensures
            r.whitelist@ == Map::<HashKey, i64>::empty(),
            r.blacklist@ == Map::<HashKey, i64>::empty(),
            r.keys@ == Map::<HashKey, i64>::empty(),
    {
        WbkState { whitelist: BTreeMap::new(), blacklist: BTreeMap::new(), keys: BTreeMap::new() }
    }

    fn list_mut(&mut self, kind: ListKind) -> (r: &mut BTreeMap<HashKey, i64>)
        ensures
            *r == wbk_field(*old(self), kind),
            wbk_field(*final(self), kind) == *final(r),
            forall|other: ListKind| other != kind ==> #[trigger] wbk_field(*final(self), other) == wbk_field(*old(self), other),
    {
        match kind {
            ListKind::Whitelist => &mut self.whitelist,
            ListKind::Blacklist => &mut self.blacklist,
            ListKind::Keys => &mut self.keys,
        }
    }

    fn insert_into(&mut self, kind: ListKind, k: HashKey, v: i64)
        ensures
            wbk_list(*final(self), kind) == wbk_list(*old(self), kind).insert(k, v),
            others_unchanged(*old(self), *final(self), kind),
    {
        match kind {
            ListKind::Whitelist => { self.whitelist.insert(k, v); },
            ListKind::Blacklist => { self.blacklist.insert(k, v); },
            ListKind::Keys => { self.keys.insert(k, v); },
        }
    }

    fn list(&self, kind: ListKind) -> (r: &BTreeMap<HashKey, i64>)
        ensures
            *r == wbk_field(*self, kind),
    {
        match kind {
            ListKind::Whitelist => &self.whitelist,
            ListKind::Blacklist => &self.blacklist,
            ListKind::Keys => &self.keys,
        }
    }

    fn reply(&self, action: WbkAction, data: WbkData, stop: bool) -> (r: WbkReply)
        ensures
            r.action == action,
            r.data == data,
            r.stop == stop,
            counts_of(r, *self),
    {
        WbkReply {
            action,
            data,
            whitelist_count: wbk_count(&self.whitelist),
            blacklist_count: wbk_count(&self.blacklist),
            keys_count: wbk_count(&self.keys),
            stop,
        }
    }

    /// Answers one request.
    pub fn handle(&mut self, request: WbkRequest) -> (r: WbkReply)
        ensures
            counts_of(r, *final(self)),
            r.stop == (request is Shutdown),
            match request {
                WbkRequest::AddSingle { list, info_hash, value } => {
                    &&& wbk_list(*final(self), list) == wbk_list(*old(self), list).insert(key_of(info_hash@), value)
                    &&& others_unchanged(*old(self), *final(self), list)
                    &&& r.action == WbkAction::AddSingle(list)
                    &&& r.data is Nothing
                },
                WbkRequest::AddMulti { list, entries } => {
                    &&& wbk_list(*final(self), list) == insert_all(wbk_list(*old(self), list), keyed_values(entries@))
                    &&& others_unchanged(*old(self), *final(self), list)
                    &&& r.action == WbkAction::AddMulti(list)
                    &&& r.data is Nothing
                },
                WbkRequest::GetSingle { list, info_hash } => {
                    &&& *final(self) == *old(self)
                    &&& r.action == WbkAction::GetSingle(list)
                    &&& r.data == WbkData::Value(lookup_num(wbk_list(*old(self), list), key_of(info_hash@)))
                },
                WbkRequest::GetMulti { list, hashes } => {
                    &&& *final(self) == *old(self)
                    &&& r.action == WbkAction::GetMulti(list)
                    &&& r.data matches WbkData::Values(v) && looked_up(wbk_list(*old(self), list), hashes@, v@)
                },
                WbkRequest::GetAll { list } => {
                    &&& *final(self) == *old(self)
                    &&& r.action == WbkAction::GetAll(list)
                    &&& r.data matches WbkData::All(v) && keyed_values(v@) == owned_entries(
                        vstd::std_specs::btree::spec_btree_map_iter(&wbk_field(*old(self), list)).remaining(),
                    )
                },
                WbkRequest::RemoveSingle { list, info_hash } => {
                    &&& wbk_list(*final(self), list) == wbk_list(*old(self), list).remove(key_of(info_hash@))
                    &&& others_unchanged(*old(self), *final(self), list)
                    &&& r.action == WbkAction::RemoveSingle(list)
                    &&& r.data == WbkData::Removed(wbk_list(*old(self), list).contains_key(key_of(info_hash@)))
                },
                WbkRequest::RemoveMulti { list, hashes } => {
                    &&& wbk_list(*final(self), list) == remove_all(wbk_list(*old(self), list), hash_keys(hashes@))
                    &&& others_unchanged(*old(self), *final(self), list)
                    &&& r.action == WbkAction::RemoveMulti(list)
                    &&& r.data matches WbkData::RemovedCount(n) && n == removed_count(wbk_list(*old(self), list), hash_keys(hashes@))
                },
                WbkRequest::Clear { list } => {
                    &&& wbk_list(*final(self), list) == Map::<HashKey, i64>::empty()
                    &&& others_unchanged(*old(self), *final(self), list)
                    &&& r.action == WbkAction::Clear(list)
                    &&& r.data is Nothing
                },
                WbkRequest::Shutdown => {
                    &&& *final(self) == *old(self)
                    &&& r.action == WbkAction::Shutdown
                    &&& r.data is Nothing
                },
                WbkRequest::Unknown => {
                    &&& *final(self) == *old(self)
                    &&& r.action == WbkAction::Error
                    &&& r.data is UnknownAction
                },
            },
    {
        match request {
            WbkRequest::AddSingle { list, info_hash, value } => {
                let k = crate::tracker::keyed::hash_key(&info_hash.0);
                self.insert_into(list, k, value);
                self.reply(WbkAction::AddSingle(list), WbkData::Nothing, false)
            },
            WbkRequest::AddMulti { list, entries } => {
                add_multi(self.list_mut(list), &entries);
                self.reply(WbkAction::AddMulti(list), WbkData::Nothing, false)
            },
            WbkRequest::GetSingle { list, info_hash } => {
                let v = get_single(self.list(list), info_hash);
                self.reply(WbkAction::GetSingle(list), WbkData::Value(v), false)
            },
            WbkRequest::GetMulti { list, hashes } => {
                let v = get_multi(self.list(list), &hashes);
                self.reply(WbkAction::GetMulti(list), WbkData::Values(v), false)
            },
            WbkRequest::GetAll { list } => {
                let v = entries_of(self.list(list));
                self.reply(WbkAction::GetAll(list), WbkData::All(v), false)
            },
            WbkRequest::RemoveSingle { list, info_hash } => {
                let removed = remove_single(self.list_mut(list), info_hash);
                self.reply(WbkAction::RemoveSingle(list), WbkData::Removed(removed), false)
            },
            WbkRequest::RemoveMulti { list, hashes } => {
                let removed = remove_multi(self.list_mut(list), &hashes);
                self.reply(WbkAction::RemoveMulti(list), WbkData::RemovedCount(removed), false)
            },
            WbkRequest::Clear { list } => {
                self.list_mut(list).clear();
                self.reply(WbkAction::Clear(list), WbkData::Nothing, false)
            },
            WbkRequest::Shutdown => self.reply(WbkAction::Shutdown, WbkData::Nothing, true),
            WbkRequest::Unknown => self.reply(WbkAction::Error, WbkData::UnknownAction, false),
        }
    }
}

} // verus!
