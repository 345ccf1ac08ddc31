//! What every actor does with a map from hashes to numbers: add one or
//! many, look up one or many, list all, remove one or many, clear.

use vstd::prelude::*;
use std::collections::BTreeMap;
use crate::tracker::keyed::{HashKey, hash_key, key_of};
use crate::tracker_objects::torrents::hash_keys;
use crate::tracker_objects::updates::{insert_all, remove_all};
use crate::tracker_objects::whitelist::keyed_values;
use crate::udp::types::InfoHash;

verus! {

broadcast use vstd::std_specs::btree::group_btree_axioms;

/// The number under `k`, if any.
pub open spec fn lookup_num(m: Map<HashKey, i64>, k: HashKey) -> Option<i64> {
    if m.contains_key(k) {
        Some(m[k])
    } else {
        None
    }
}

/// How many of `ks` were there when each was removed in turn.
pub open spec fn removed_count<V>(m: Map<HashKey, V>, ks: Seq<HashKey>) -> nat
    decreases ks.len(),
{
    if ks.len() == 0 {
        0
    } else {
        removed_count(m, ks.drop_last()) + if remove_all(m, ks.drop_last()).contains_key(ks.last()) {
            1nat
        } else {
            0nat
        }
    }
}

/// Each hash of `hashes` with its number, in the order asked.
pub open spec fn looked_up(m: Map<HashKey, i64>, hashes: Seq<InfoHash>, r: Seq<(InfoHash, Option<i64>)>) -> bool {
    &&& r.len() == hashes.len()
    &&& forall|i: int|
        0 <= i < hashes.len() ==> (#[trigger] r[i]).0 == hashes[i] && r[i].1 == lookup_num(
            m,
            key_of(hashes[i]@),
        )
}

/// The number stored under `info_hash`.
pub fn get_single(map: &BTreeMap<HashKey, i64>, info_hash: InfoHash) -> (r: Option<i64>)
    ensures
        r == lookup_num(map@, key_of(info_hash@)),
{
    let k = hash_key(&info_hash.0);
    match map.get(&k) {
        Some(v) => Some(*v),
        None => None,
    }
}

/// The numbers of `hashes`, in the order asked.
pub fn get_multi(map: &BTreeMap<HashKey, i64>, hashes: &Vec<InfoHash>) -> (r: Vec<(InfoHash, Option<i64>)>)
    ensures
        looked_up(map@, hashes@, r@),
{
    let mut r: Vec<(InfoHash, Option<i64>)> = Vec::new();
    let mut i: usize = 0;
    while i < hashes.len()
        invariant
            i <= hashes@.len(),
            r@.len() == i,
            forall|j: int|
                0 <= j < i ==> (#[trigger] r@[j]).0 == hashes@[j] && r@[j].1 == lookup_num(
                    map@,
                    key_of(hashes@[j]@),
                ),
        decreases hashes@.len() - i,
    {
        let h = hashes[i];
        r.push((h, get_single(map, h)));
        i = i + 1;
    }
    r
}

/// Stores each number of `entries` in turn.
pub fn add_multi(map: &mut BTreeMap<HashKey, i64>, entries: &Vec<(InfoHash, i64)>)
    ensures
        final(map)@ == insert_all(old(map)@, keyed_values(entries@)),
{
    let ghost start = map@;
    let ghost es = keyed_values(entries@);
    let mut i: usize = 0;
    while i < entries.len()
        invariant
            i <= entries@.len(),
            es == keyed_values(entries@),
            map@ == insert_all(start, es.take(i as int)),
        decreases entries@.len() - i,
    {
        let (h, v) = entries[i];
        let k = hash_key(&h.0);
        proof {
            assert(es.take(i + 1).drop_last() =~= es.take(i as int));
            assert(es.take(i + 1).last() == (k, v));
        }
        map.insert(k, v);
        i = i + 1;
    }
    assert(es.take(entries@.len() as int) =~= es);
}

/// Removes `info_hash`; says whether it was there.
pub fn remove_single(map: &mut BTreeMap<HashKey, i64>, info_hash: InfoHash) -> (r: bool)
    ensures
        final(map)@ == old(map)@.remove(key_of(info_hash@)),
        r == old(map)@.contains_key(key_of(info_hash@)),
{
    let k = hash_key(&info_hash.0);
    match map.remove(&k) {
        None => false,
        Some(_) => true,
    }
}

/// Removes each of `hashes` in turn; counts those that were there.
pub fn remove_multi(map: &mut BTreeMap<HashKey, i64>, hashes: &Vec<InfoHash>) -> (r: u64)
    ensures
        final(map)@ == remove_all(old(map)@, hash_keys(hashes@)),
        r == removed_count(old(map)@, hash_keys(hashes@)),
{
    let ghost start = map@;
    let ghost ks = hash_keys(hashes@);
    let mut removed: u64 = 0;
    let mut i: usize = 0;
    while i < hashes.len()
        invariant
            i <= hashes@.len(),
            ks == hash_keys(hashes@),
            map@ == remove_all(start, ks.take(i as int)),
            removed == removed_count(start, ks.take(i as int)),
            removed <= i,
        decreases hashes@.len() - i,
    {
        let k = hash_key(&hashes[i].0);
        proof {
            assert(ks.take(i + 1).drop_last() =~= ks.take(i as int));
            assert(ks.take(i + 1).last() == k);
        }
        match map.remove(&k) {
            None => {},
            Some(_) => {
                removed = removed + 1;
            },
        }
        i = i + 1;
    }
    assert(ks.take(hashes@.len() as int) =~= ks);
    removed
}

/// A request to an actor that keeps one map of numbers (the whitelist, the
/// pending updates, the shadow).
pub enum NumberRequest {
    AddSingle { info_hash: InfoHash, value: i64 },
    AddMulti { entries: Vec<(InfoHash, i64)> },
    GetSingle { info_hash: InfoHash },
    GetMulti { hashes: Vec<InfoHash> },
    DeleteSingle { info_hash: InfoHash },
    DeleteMulti { hashes: Vec<InfoHash> },
    Shutdown,
    /// An action the actor does not know.
    Unknown,
}

/// The action a reply names: the request's own, or an error.
#[derive(PartialEq, Eq, Structural, Clone, Copy, Debug)]
pub enum NumberAction {
    AddSingle,
    AddMulti,
    GetSingle,
    GetMulti,
    DeleteSingle,
    DeleteMulti,
    Shutdown,
    Error,
}

/// What a reply carries.
pub enum NumberData {
    Nothing,
    Value(Option<i64>),
    Values(Vec<(InfoHash, Option<i64>)>),
    Removed(bool),
    RemovedCount(u64),
    UnknownAction,
}

/// A reply: the action, its data, the size of the map (left out of the
/// replies to a shutdown and to an unknown action), and whether the actor
/// stops.
pub struct NumberReply {
    pub action: NumberAction,
    pub data: NumberData,
    pub count: Option<i64>,
    pub stop: bool,
}

/// The map that such an actor owns.
pub struct NumberStore {
    pub map: BTreeMap<HashKey, i64>,
}

impl NumberStore {
    /// An empty map.
    pub fn new() -> (r: NumberStore)
        ensures
            r.map@ == Map::<HashKey, i64>::empty(),
    {
        NumberStore { map: BTreeMap::new() }
    }

    fn reply(&self, action: NumberAction, data: NumberData) -> (r: NumberReply)
        ensures
            r.action == action,
            r.data == data,
            r.count == Some(self.map@.len() as i64),
            !r.stop,
    {
        let n = self.map.len();
        NumberReply { action, data, count: Some(n as i64), stop: false }
    }

    /// Answers one request.
    pub fn handle(&mut self, request: NumberRequest) -> (r: NumberReply)
        ensures
            r.stop == (request is Shutdown),
            (request is Shutdown || request is Unknown) ==> r.count is None,
            !(request is Shutdown || request is Unknown) ==> r.count == Some(final(self).map@.len() as i64),
            match request {
                NumberRequest::AddSingle { info_hash, value } => {
                    &&& final(self).map@ == old(self).map@.insert(key_of(info_hash@), value)
                    &&& r.action == NumberAction::AddSingle
                    &&& r.data is Nothing
                },
                NumberRequest::AddMulti { entries } => {
                    &&& final(self).map@ == insert_all(old(self).map@, keyed_values(entries@))
                    &&& r.action == NumberAction::AddMulti
                    &&& r.data is Nothing
                },
                NumberRequest::GetSingle { info_hash } => {
                    &&& final(self).map@ == old(self).map@
                    &&& r.action == NumberAction::GetSingle
                    &&& r.data == NumberData::Value(lookup_num(old(self).map@, key_of(info_hash@)))
                },
                NumberRequest::GetMulti { hashes } => {
                    &&& final(self).map@ == old(self).map@
                    &&& r.action == NumberAction::GetMulti
                    &&& r.data matches NumberData::Values(v) && looked_up(old(self).map@, hashes@, v@)
                },
                NumberRequest::DeleteSingle { info_hash } => {
                    &&& final(self).map@ == old(self).map@.remove(key_of(info_hash@))
                    &&& r.action == NumberAction::DeleteSingle
                    &&& r.data == NumberData::Removed(old(self).map@.contains_key(key_of(info_hash@)))
                },
                NumberRequest::DeleteMulti { hashes } => {
                    &&& final(self).map@ == remove_all(old(self).map@, hash_keys(hashes@))
                    &&& r.action == NumberAction::DeleteMulti
                    &&& r.data matches NumberData::RemovedCount(n) && n == removed_count(old(self).map@, hash_keys(hashes@))
                },
                NumberRequest::Shutdown => {
                    &&& final(self).map@ == old(self).map@
                    &&& r.action == NumberAction::Shutdown
                    &&& r.data is Nothing
                },
                NumberRequest::Unknown => {
                    &&& final(self).map@ == old(self).map@
                    &&& r.action == NumberAction::Error
                    &&& r.data is UnknownAction
                },
            },
    {
        match request {
            NumberRequest::AddSingle { info_hash, value } => {
                let k = hash_key(&info_hash.0);
                self.map.insert(k, value);
                self.reply(NumberAction::AddSingle, NumberData::Nothing)
            },
            NumberRequest::AddMulti { entries } => {
                add_multi(&mut self.map, &entries);
                self.reply(NumberAction::AddMulti, NumberData::Nothing)
            },
            NumberRequest::GetSingle { info_hash } => {
                let v = get_single(&self.map, info_hash);
                self.reply(NumberAction::GetSingle, NumberData::Value(v))
            },
            NumberRequest::GetMulti { hashes } => {
                let v = get_multi(&self.map, &hashes);
                self.reply(NumberAction::GetMulti, NumberData::Values(v))
            },
            NumberRequest::DeleteSingle { info_hash } => {
                let removed = remove_single(&mut self.map, info_hash);
                self.reply(NumberAction::DeleteSingle, NumberData::Removed(removed))
            },
            NumberRequest::DeleteMulti { hashes } => {
                let removed = remove_multi(&mut self.map, &hashes);
                self.reply(NumberAction::DeleteMulti, NumberData::RemovedCount(removed))
            },
            NumberRequest::Shutdown => NumberReply {
                action: NumberAction::Shutdown,
                data: NumberData::Nothing,
                count: None,
                stop: true,
            },
            NumberRequest::Unknown => NumberReply {
                action: NumberAction::Error,
                data: NumberData::UnknownAction,
                count: None,
                stop: false,
            },
        }
    }
}

/// A request to an actor that only knows how to stop (the blacklist, keys
/// and peers actors of this design).
pub enum StopRequest {
    Shutdown,
    /// Any other action.
    Unknown,
}

/// The reply of such an actor: shutting down, or an unknown action.
pub struct StopReply {
    pub unknown_action: bool,
    pub stop: bool,
}

/// Answers a request to an actor that only knows how to stop.
pub fn handle_stop_only(request: StopRequest) -> (r: StopReply)
    ensures
        r.stop == (request is Shutdown),
        r.unknown_action == (request is Unknown),
{
    match request {
        StopRequest::Shutdown => StopReply { unknown_action: false, stop: true },
        StopRequest::Unknown => StopReply { unknown_action: true, stop: false },
    }
}

} // verus!
