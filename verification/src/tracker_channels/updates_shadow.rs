//! The actor that owns the pending updates and their shadow.

use vstd::prelude::*;
use std::collections::BTreeMap;
use vstd::std_specs::iter::IteratorSpec;
use crate::tracker::keyed::{HashKey, hash_key, key_of, owned_entries};
use crate::tracker_channels::store::{
    add_multi, get_multi, get_single, lookup_num, looked_up, remove_multi, remove_single,
    removed_count,
};
use crate::tracker_objects::torrents::hash_keys;
use crate::tracker_objects::updates::{entries_of, insert_all, remove_all};
use crate::tracker_objects::whitelist::keyed_values;
use crate::udp::types::InfoHash;

verus! {

broadcast use vstd::std_specs::btree::group_btree_axioms;

/// Which of the two maps.
#[derive(PartialEq, Eq, Structural, Clone, Copy, Debug)]
pub enum UpdatesOrShadow {
    Updates,
    Shadow,
}

/// A request to the updates actor.
pub enum UpdatesShadowRequest {
    AddSingle { which: UpdatesOrShadow, info_hash: InfoHash, completed: i64 },
    AddMulti { which: UpdatesOrShadow, entries: Vec<(InfoHash, i64)> },
    GetSingle { which: UpdatesOrShadow, info_hash: InfoHash },
    GetMulti { which: UpdatesOrShadow, hashes: Vec<InfoHash> },
    /// All pending updates; with `clear`, the queue empties after.
    UpdatesGetAll { clear: bool },
    ShadowGetAll,
    RemoveSingle { which: UpdatesOrShadow, info_hash: InfoHash },
    RemoveMulti { which: UpdatesOrShadow, hashes: Vec<InfoHash> },
    ShadowClear,
    Shutdown,
    /// An action the actor does not know.
    Unknown,
}

/// The action a reply names.
#[derive(PartialEq, Eq, Structural, Clone, Copy, Debug)]
pub enum UpdatesShadowAction {
    AddSingle(UpdatesOrShadow),
    AddMulti(UpdatesOrShadow),
    GetSingle(UpdatesOrShadow),
    GetMulti(UpdatesOrShadow),
    UpdatesGetAll,
    RemoveSingle(UpdatesOrShadow),
    RemoveMulti(UpdatesOrShadow),
    ShadowClear,
    Shutdown,
    Error,
}

/// What a reply carries.
pub enum UpdatesShadowData {
    Nothing,
    Value(Option<i64>),
    Values(Vec<(InfoHash, Option<i64>)>),
    All(Vec<(InfoHash, i64)>),
    Removed(bool),
    RemovedCount(u64),
    UnknownAction,
}

/// A reply: the action, its data, the sizes of both maps, and whether the
/// actor stops.
pub struct UpdatesShadowReply {
    pub action: UpdatesShadowAction,
    pub data: UpdatesShadowData,
    pub updates_count: i64,
    pub shadow_count: i64,
    pub stop: bool,
}

/// The two maps that the actor owns.
pub struct UpdatesShadowState {
    pub updates: BTreeMap<HashKey, i64>,
    pub shadow: BTreeMap<HashKey, i64>,
}

/// The map `which` of the actor.
pub open spec fn us_map(s: UpdatesShadowState, which: UpdatesOrShadow) -> BTreeMap<HashKey, i64> {
    match which {
        UpdatesOrShadow::Updates => s.updates,
        UpdatesOrShadow::Shadow => s.shadow,
    }
}

/// The other map is as it was.
pub open spec fn other_unchanged(a: UpdatesShadowState, b: UpdatesShadowState, which: UpdatesOrShadow) -> bool {
    match which {
        UpdatesOrShadow::Updates => b.shadow == a.shadow,
        UpdatesOrShadow::Shadow => b.updates == a.updates,
    }
}

impl UpdatesShadowState {
    /// Two empty maps.
    pub fn new() -> (r: UpdatesShadowState)
        ensures
            r.updates@ == Map::<HashKey, i64>::empty(),
            r.shadow@ == Map::<HashKey, i64>::empty(),
    {
        UpdatesShadowState { updates: BTreeMap::new(), shadow: BTreeMap::new() }
    }

    fn map_mut(&mut self, which: UpdatesOrShadow) -> (r: &mut BTreeMap<HashKey, i64>)
        ensures
            *r == us_map(*old(self), which),
            us_map(*final(self), which) == *final(r),
            other_unchanged(*old(self), *final(self), which),
    {
        match which {
            UpdatesOrShadow::Updates => &mut self.updates,
            UpdatesOrShadow::Shadow => &mut self.shadow,
        }
    }

    fn map(&self, which: UpdatesOrShadow) -> (r: &BTreeMap<HashKey, i64>)
        ensures
            *r == us_map(*self, which),
    {
        match which {
            UpdatesOrShadow::Updates => &self.updates,
            UpdatesOrShadow::Shadow => &self.shadow,
        }
    }

    fn insert_into(&mut self, which: UpdatesOrShadow, k: HashKey, v: i64)
        ensures
            us_map(*final(self), which)@ == us_map(*old(self), which)@.insert(k, v),
            other_unchanged(*old(self), *final(self), which),
    {
        match which {
            UpdatesOrShadow::Updates => { self.updates.insert(k, v); },
            UpdatesOrShadow::Shadow => { self.shadow.insert(k, v); },
        }
    }

    fn reply(&self, action: UpdatesShadowAction, data: UpdatesShadowData, stop: bool) -> (r: UpdatesShadowReply)
        ensures
            r.action == action,
            r.data == data,
            r.stop == stop,
            r.updates_count == self.updates@.len() as i64,
            r.shadow_count == self.shadow@.len() as i64,
    {
        let u = self.updates.len();
        let s = self.shadow.len();
        UpdatesShadowReply { action, data, updates_count: u as i64, shadow_count: s as i64, stop }
    }

    /// Answers one request. Two replies keep what the actor has always
    /// answered: a single shadow lookup reads the pending updates, and the
    /// whole shadow comes back under the action of a single update lookup.
    pub fn handle(&mut self, request: UpdatesShadowRequest) -> (r: UpdatesShadowReply)
        ensures
            r.stop == (request is Shutdown),
            r.updates_count == final(self).updates@.len() as i64,
            r.shadow_count == final(self).shadow@.len() as i64,
            match request {
                UpdatesShadowRequest::AddSingle { which, info_hash, completed } => {
                    &&& us_map(*final(self), which)@ == us_map(*old(self), which)@.insert(key_of(info_hash@), completed)
                    &&& other_unchanged(*old(self), *final(self), which)
                    &&& r.action == UpdatesShadowAction::AddSingle(which)
                    &&& r.data is Nothing
                },
                UpdatesShadowRequest::AddMulti { which, entries } => {
                    &&& us_map(*final(self), which)@ == insert_all(us_map(*old(self), which)@, keyed_values(entries@))
                    &&& other_unchanged(*old(self), *final(self), which)
                    &&& r.action == UpdatesShadowAction::AddMulti(which)
                    &&& r.data is Nothing
                },
                UpdatesShadowRequest::GetSingle { which, info_hash } => {
                    &&& *final(self) == *old(self)
                    &&& r.action == UpdatesShadowAction::GetSingle(which)
                    &&& r.data == UpdatesShadowData::Value(lookup_num(old(self).updates@, key_of(info_hash@)))
                },
                UpdatesShadowRequest::GetMulti { which, hashes } => {
                    &&& *final(self) == *old(self)
                    &&& r.action == UpdatesShadowAction::GetMulti(which)
                    &&& r.data matches UpdatesShadowData::Values(v) && looked_up(us_map(*old(self), which)@, hashes@, v@)
                },
                UpdatesShadowRequest::UpdatesGetAll { clear } => {
                    &&& final(self).shadow == old(self).shadow
                    &&& final(self).updates@ == (if clear { Map::<HashKey, i64>::empty() } else { old(self).updates@ })
                    &&& r.action == UpdatesShadowAction::UpdatesGetAll
                    &&& r.data matches UpdatesShadowData::All(v) && keyed_values(v@) == owned_entries(
                        vstd::std_specs::btree::spec_btree_map_iter(&old(self).updates).remaining(),
                    )
                },
                UpdatesShadowRequest::ShadowGetAll => {
                    &&& *final(self) == *old(self)
                    &&& r.action == UpdatesShadowAction::GetSingle(UpdatesOrShadow::Updates)
                    &&& r.data matches UpdatesShadowData::All(v) && keyed_values(v@) == owned_entries(
                        vstd::std_specs::btree::spec_btree_map_iter(&old(self).shadow).remaining(),
                    )
                },
                UpdatesShadowRequest::RemoveSingle { which, info_hash } => {
                    &&& us_map(*final(self), which)@ == us_map(*old(self), which)@.remove(key_of(info_hash@))
                    &&& other_unchanged(*old(self), *final(self), which)
                    &&& r.action == UpdatesShadowAction::RemoveSingle(which)
                    &&& r.data == UpdatesShadowData::Removed(us_map(*old(self), which)@.contains_key(key_of(info_hash@)))
                },
                UpdatesShadowRequest::RemoveMulti { which, hashes } => {
                    &&& us_map(*final(self), which)@ == remove_all(us_map(*old(self), which)@, hash_keys(hashes@))
                    &&& other_unchanged(*old(self), *final(self), which)
                    &&& r.action == UpdatesShadowAction::RemoveMulti(which)
                    &&& r.data matches UpdatesShadowData::RemovedCount(n) && n == removed_count(us_map(*old(self), which)@, hash_keys(hashes@))
                },
                UpdatesShadowRequest::ShadowClear => {
                    &&& final(self).updates == old(self).updates
                    &&& final(self).shadow@ == Map::<HashKey, i64>::empty()
                    &&& r.action == UpdatesShadowAction::ShadowClear
                    &&& r.data is Nothing
                },
                UpdatesShadowRequest::Shutdown => {
                    &&& *final(self) == *old(self)
                    &&& r.action == UpdatesShadowAction::Shutdown
                    &&& r.data is Nothing
                },
                UpdatesShadowRequest::Unknown => {
                    &&& *final(self) == *old(self)
                    &&& r.action == UpdatesShadowAction::Error
                    &&& r.data is UnknownAction
                },
            },
    {
        match request {
            UpdatesShadowRequest::AddSingle { which, info_hash, completed } => {
                let k = hash_key(&info_hash.0);
                self.insert_into(which, k, completed);
                self.reply(UpdatesShadowAction::AddSingle(which), UpdatesShadowData::Nothing, false)
            },
            UpdatesShadowRequest::AddMulti { which, entries } => {
                add_multi(self.map_mut(which), &entries);
                self.reply(UpdatesShadowAction::AddMulti(which), UpdatesShadowData::Nothing, false)
            },
            UpdatesShadowRequest::GetSingle { which, info_hash } => {
                let v = get_single(&self.updates, info_hash);
                self.reply(UpdatesShadowAction::GetSingle(which), UpdatesShadowData::Value(v), false)
            },
            UpdatesShadowRequest::GetMulti { which, hashes } => {
                let v = get_multi(self.map(which), &hashes);
                self.reply(UpdatesShadowAction::GetMulti(which), UpdatesShadowData::Values(v), false)
            },
            UpdatesShadowRequest::UpdatesGetAll { clear } => {
                let v = entries_of(&self.updates);
                if clear {
                    self.updates.clear();
                }
                self.reply(UpdatesShadowAction::UpdatesGetAll, UpdatesShadowData::All(v), false)
            },
            UpdatesShadowRequest::ShadowGetAll => {
                let v = entries_of(&self.shadow);
                self.reply(
                    UpdatesShadowAction::GetSingle(UpdatesOrShadow::Updates),
                    UpdatesShadowData::All(v),
                    false,
                )
            },
            UpdatesShadowRequest::RemoveSingle { which, info_hash } => {
                let removed = remove_single(self.map_mut(which), info_hash);
                self.reply(UpdatesShadowAction::RemoveSingle(which), UpdatesShadowData::Removed(removed), false)
            },
            UpdatesShadowRequest::RemoveMulti { which, hashes } => {
                let removed = remove_multi(self.map_mut(which), &hashes);
                self.reply(
                    UpdatesShadowAction::RemoveMulti(which),
                    UpdatesShadowData::RemovedCount(removed),
                    false,
                )
            },
            UpdatesShadowRequest::ShadowClear => {
                self.shadow.clear();
                self.reply(UpdatesShadowAction::ShadowClear, UpdatesShadowData::Nothing, false)
            },
            UpdatesShadowRequest::Shutdown => self.reply(
                UpdatesShadowAction::Shutdown,
                UpdatesShadowData::Nothing,
                true,
            ),
            UpdatesShadowRequest::Unknown => self.reply(
                UpdatesShadowAction::Error,
                UpdatesShadowData::UnknownAction,
                false,
            ),
        }
    }
}

} // verus!
