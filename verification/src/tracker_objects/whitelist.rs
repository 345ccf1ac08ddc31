//! The whitelist, the blacklist and the keys. Each maps a 20-byte hash to a
//! number: for the two lists a flag (1 stored, 2 added since the last save,
//! 0 to be deleted at the next save), for the keys the time it expires.

use vstd::prelude::*;
use std::collections::BTreeMap;
use vstd::std_specs::iter::IteratorSpec;
use crate::tracker::{TorrentTracker, TrackerModel, bump, bump_fits, fits_i64};
use crate::tracker::keyed::{HashKey, hash_key, key_bytes, key_of, lemma_walk, owned_entries};
use crate::tracker_channels::whitelist_blacklist_keys::{stored_count, wbk_count};
use crate::tracker_objects::stats::{StatsEvent, with_counter};
use crate::udp::types::InfoHash;

verus! {

broadcast use vstd::std_specs::btree::group_btree_axioms;

/// Which of the three lists.
#[derive(PartialEq, Eq, Structural, Clone, Copy, Debug)]
pub enum ListKind {
    Whitelist,
    Blacklist,
    Keys,
}

/// The list `kind` of `m`.
pub open spec fn list_of(m: TrackerModel, kind: ListKind) -> Map<HashKey, i64> {
    match kind {
        ListKind::Whitelist => m.whitelist,
        ListKind::Blacklist => m.blacklist,
        ListKind::Keys => m.keys,
    }
}

/// `m` with the list `kind` replaced by `l`.
pub open spec fn with_list(m: TrackerModel, kind: ListKind, l: Map<HashKey, i64>) -> TrackerModel {
    match kind {
        ListKind::Whitelist => TrackerModel { whitelist: l, ..m },
        ListKind::Blacklist => TrackerModel { blacklist: l, ..m },
        ListKind::Keys => TrackerModel { keys: l, ..m },
    }
}

/// The counter of the list `kind`.
pub open spec fn list_event(kind: ListKind) -> StatsEvent {
    match kind {
        ListKind::Whitelist => StatsEvent::Whitelist,
        ListKind::Blacklist => StatsEvent::Blacklist,
        ListKind::Keys => StatsEvent::Key,
    }
}

/// Adding `k` to the list with the value `v`: the list's counter grows by
/// one whether or not `k` was there.
pub open spec fn model_add_to_list(m: TrackerModel, kind: ListKind, k: HashKey, v: i64) -> TrackerModel {
    let m1 = with_list(m, kind, list_of(m, kind).insert(k, v));
    TrackerModel { stats: bump(m1.stats, list_event(kind), 1), ..m1 }
}

/// The value that adding to a list stores: 1 for an entry loaded from
/// storage, 2 for a new one.
pub open spec fn add_flag(on_load: bool) -> i64 {
    if on_load {
        1
    } else {
        2
    }
}

/// `m` with the list `kind` replaced by `l`, its counter set to the number of
/// stored entries of `l`.
pub open spec fn with_counted_list(m: TrackerModel, kind: ListKind, l: Map<HashKey, i64>) -> TrackerModel {
    let m1 = with_list(m, kind, l);
    TrackerModel { stats: with_counter(m1.stats, list_event(kind), stored_count(l) as i64), ..m1 }
}

/// Flagging `k` for deletion, when it is there.
pub open spec fn model_remove_flag(m: TrackerModel, kind: ListKind, k: HashKey) -> TrackerModel {
    let l = list_of(m, kind);
    with_counted_list(m, kind, if l.contains_key(k) { l.insert(k, 0) } else { l })
}

/// Taking `k` out of the list.
pub open spec fn model_remove_from_list(m: TrackerModel, kind: ListKind, k: HashKey) -> TrackerModel {
    with_counted_list(m, kind, list_of(m, kind).remove(k))
}

/// Emptying the list; its counter becomes zero.
pub open spec fn model_clear_list(m: TrackerModel, kind: ListKind) -> TrackerModel {
    let m1 = with_list(m, kind, Map::empty());
    TrackerModel { stats: with_counter(m1.stats, list_event(kind), 0), ..m1 }
}

/// What a save leaves of a list, given the entries that were saved: entries
/// flagged for deletion go, new ones become stored.
pub open spec fn model_after_save(m: TrackerModel, kind: ListKind, saved: Seq<(HashKey, i64)>) -> TrackerModel
    decreases saved.len(),
{
    if saved.len() == 0 {
        m
    } else {
        let m1 = model_after_save(m, kind, saved.drop_last());
        let (k, v) = saved.last();
        if v == 0 {
            model_remove_from_list(m1, kind, k)
        } else if v == 2 {
            model_add_to_list(m1, kind, k, 1)
        } else {
            m1
        }
    }
}

/// Whether each new entry that a save makes stored keeps the counter within
/// `i64`.
pub open spec fn after_save_fits(m: TrackerModel, kind: ListKind, saved: Seq<(HashKey, i64)>) -> bool
    decreases saved.len(),
{
    saved.len() == 0 || (after_save_fits(m, kind, saved.drop_last()) && (saved.last().1 == 2
        ==> bump_fits(model_after_save(m, kind, saved.drop_last()).stats, list_event(kind), 1)))
}

/// The bounds for a list hold for each of its prefixes.
proof fn lemma_after_save_fits_prefix(m: TrackerModel, kind: ListKind, saved: Seq<(HashKey, i64)>, n: int)
    requires
        0 < n <= saved.len(),
        after_save_fits(m, kind, saved),
    ensures
        saved[n - 1].1 == 2 ==> bump_fits(model_after_save(m, kind, saved.take(n - 1)).stats, list_event(kind), 1),
    decreases saved.len(),
{
    if n < saved.len() {
        lemma_after_save_fits_prefix(m, kind, saved.drop_last(), n);
        assert(saved.drop_last().take(n - 1) =~= saved.take(n - 1));
    } else {
        assert(saved.take(n - 1) =~= saved.drop_last());
    }
}

/// Whether `t` seconds since the epoch is a time that a UTC date can hold
/// (from the start of year -262143 to the end of year 262142).
pub open spec fn utc_representable(t: i64) -> bool {
    -8_334_601_315_200 <= t <= 8_210_266_876_799
}

/// Whether a key that expires at `t` (seconds since the epoch) has expired
/// at `now_ms` (milliseconds since the epoch); 0 never expires.
pub open spec fn key_expired(t: i64, now_ms: i64) -> bool {
    t != 0 && t * 1000 < now_ms
}

/// Removing, in the order given, each key of `entries` that has expired.
pub open spec fn model_clean_keys(m: TrackerModel, entries: Seq<(HashKey, i64)>, now: i64) -> TrackerModel
    decreases entries.len(),
{
    if entries.len() == 0 {
        m
    } else {
        let m1 = model_clean_keys(m, entries.drop_last(), now);
        if key_expired(entries.last().1, now) {
            model_remove_from_list(m1, ListKind::Keys, entries.last().0)
        } else {
            m1
        }
    }
}

/// Whether some entry of `es` is for the key `x`.
pub open spec fn named_in<V>(es: Seq<(HashKey, V)>, x: HashKey) -> bool {
    exists|j: int| 0 <= j < es.len() && #[trigger] es[j].0 == x
}

/// Cleaning the keys along entries that each carry a key's own value drops
/// exactly the named keys that expired, and leaves every other value alone.
pub proof fn lemma_clean_keys_drops_expired(m: TrackerModel, es: Seq<(HashKey, i64)>, now: i64)
    requires
        forall|i: int| #![trigger es[i]] 0 <= i < es.len() ==> m.keys.contains_key(es[i].0) && m.keys[es[i].0] == es[i].1,
    ensures
        forall|x: HashKey|
            #[trigger] model_clean_keys(m, es, now).keys.contains_key(x) <==> (m.keys.contains_key(x) && !(named_in(
                es,
                x,
            ) && key_expired(m.keys[x], now))),
        forall|x: HashKey|
            #[trigger] model_clean_keys(m, es, now).keys.contains_key(x) ==> model_clean_keys(m, es, now).keys[x]
                == m.keys[x],
    decreases es.len(),
{
    if es.len() > 0 {
        let init = es.drop_last();
        assert forall|i: int| #![trigger init[i]] 0 <= i < init.len() implies m.keys.contains_key(init[i].0)
            && m.keys[init[i].0] == init[i].1 by {
            assert(init[i] == es[i]);
        }
        lemma_clean_keys_drops_expired(m, init, now);
        let last = es.last();
        assert(es[es.len() - 1] == last);
        assert forall|x: HashKey| named_in(es, x) <==> (named_in(init, x) || last.0 == x) by {
            if named_in(es, x) {
                let j = choose|j: int| 0 <= j < es.len() && #[trigger] es[j].0 == x;
                if j < init.len() {
                    assert(init[j] == es[j]);
                }
            }
            if named_in(init, x) {
                let j = choose|j: int| 0 <= j < init.len() && #[trigger] init[j].0 == x;
                assert(init[j] == es[j]);
            }
        }
        let m1 = model_clean_keys(m, init, now);
        let after = model_clean_keys(m, es, now);
        assert(m.keys.contains_key(last.0) && m.keys[last.0] == last.1);
        assert(after.keys == if key_expired(last.1, now) {
            m1.keys.remove(last.0)
        } else {
            m1.keys
        });
    }
}

/// The keys and values of a list as it was given out.
pub open spec fn keyed_values(l: Seq<(InfoHash, i64)>) -> Seq<(HashKey, i64)> {
    l.map_values(|p: (InfoHash, i64)| (key_of(p.0@), p.1))
}

/// The map that holds the list `kind`.
pub open spec fn list_field(t: TorrentTracker, kind: ListKind) -> BTreeMap<HashKey, i64> {
    match kind {
        ListKind::Whitelist => t.whitelist,
        ListKind::Blacklist => t.blacklist,
        ListKind::Keys => t.keys,
    }
}

impl TorrentTracker {
    fn list_ref(&self, kind: ListKind) -> (r: &BTreeMap<HashKey, i64>)
        ensures
            r@ == list_of(self@, kind),
            *r == list_field(*self, kind),
    {
        match kind {
            ListKind::Whitelist => &self.whitelist,
            ListKind::Blacklist => &self.blacklist,
            ListKind::Keys => &self.keys,
        }
    }

    fn list_insert(&mut self, kind: ListKind, k: HashKey, v: i64)
        ensures
            final(self)@ == with_list(old(self)@, kind, list_of(old(self)@, kind).insert(k, v)),
    {
        match kind {
            ListKind::Whitelist => { self.whitelist.insert(k, v); },
            ListKind::Blacklist => { self.blacklist.insert(k, v); },
            ListKind::Keys => { self.keys.insert(k, v); },
        }
        assert(self@ =~= with_list(old(self)@, kind, list_of(old(self)@, kind).insert(k, v)));
    }

    fn list_remove(&mut self, kind: ListKind, k: HashKey)
        ensures
            final(self)@ == with_list(old(self)@, kind, list_of(old(self)@, kind).remove(k)),
    {
        match kind {
            ListKind::Whitelist => { self.whitelist.remove(&k); },
            ListKind::Blacklist => { self.blacklist.remove(&k); },
            ListKind::Keys => { self.keys.remove(&k); },
        }
        assert(self@ =~= with_list(old(self)@, kind, list_of(old(self)@, kind).remove(k)));
    }

    fn list_clear(&mut self, kind: ListKind)
        ensures
            final(self)@ == with_list(old(self)@, kind, Map::empty()),
    {
        match kind {
            ListKind::Whitelist => { self.whitelist.clear(); },
            ListKind::Blacklist => { self.blacklist.clear(); },
            ListKind::Keys => { self.keys.clear(); },
        }
        assert(self@ =~= with_list(old(self)@, kind, Map::empty()));
    }

    fn list_event_of(kind: ListKind) -> (r: StatsEvent)
        ensures
            r == list_event(kind),
    {
        match kind {
            ListKind::Whitelist => StatsEvent::Whitelist,
            ListKind::Blacklist => StatsEvent::Blacklist,
            ListKind::Keys => StatsEvent::Key,
        }
    }

    /// Adds `info_hash` to the list `kind` with the value `value`.
    pub fn add_to_list(&mut self, kind: ListKind, info_hash: InfoHash, value: i64)
        requires
            bump_fits(old(self)@.stats, list_event(kind), 1),
        ensures
            final(self)@ == model_add_to_list(old(self)@, kind, key_of(info_hash@), value),
    {
        let k = hash_key(&info_hash.0);
        self.list_insert(kind, k, value);
        self.stats.update(Self::list_event_of(kind), 1);
        assert(self@ =~= model_add_to_list(old(self)@, kind, k, value));
    }

    /// The entries of the list `kind`, in increasing hash order.
    pub fn get_list(&self, kind: ListKind) -> (r: Vec<(InfoHash, i64)>)
        ensures
            keyed_values(r@) == owned_entries(
                vstd::std_specs::btree::spec_btree_map_iter(&list_field(*self, kind)).remaining(),
            ),
    {
        let list = self.list_ref(kind);
        let ghost rem = vstd::std_specs::btree::spec_btree_map_iter(list).remaining();
        let ghost w = owned_entries(rem);
        let mut r: Vec<(InfoHash, i64)> = Vec::new();
        for kv in it: list.iter()
            invariant
                rem == vstd::std_specs::btree::spec_btree_map_iter(list).remaining(),
                w == owned_entries(rem),
                it.seq() == rem,
                keyed_values(r@) == w.take(it.index() as int),
                it.index() == w.len() ==> keyed_values(r@) == w,
        {
            let ghost idx = it.index();
            let ghost old_r = r@;
            let b = key_bytes(*kv.0);
            r.push((InfoHash(b), *kv.1));
            assert(w[idx] == (*kv.0, *kv.1));
            assert(keyed_values(r@) =~= keyed_values(old_r).push((*kv.0, *kv.1)));
            assert(w.take(idx + 1) =~= w.take(idx).push(w[idx]));
            assert(w.take(w.len() as int) =~= w);
        }
        r
    }

    /// Flags `info_hash` for deletion from the list `kind`, when it is there;
    /// the counter becomes the number of stored entries.
    pub fn remove_flag(&mut self, kind: ListKind, info_hash: InfoHash)
        ensures
            final(self)@ == model_remove_flag(old(self)@, kind, key_of(info_hash@)),
    {
        let k = hash_key(&info_hash.0);
        if self.list_ref(kind).contains_key(&k) {
            self.list_insert(kind, k, 0);
        }
        let n = wbk_count(self.list_ref(kind));
        self.stats.set(Self::list_event_of(kind), n as i64);
        assert(self@ =~= model_remove_flag(old(self)@, kind, k));
    }

    /// Takes `info_hash` out of the list `kind`; the counter becomes the
    /// number of stored entries.
    pub fn remove_from_list(&mut self, kind: ListKind, info_hash: InfoHash)
        ensures
            final(self)@ == model_remove_from_list(old(self)@, kind, key_of(info_hash@)),
    {
        let k = hash_key(&info_hash.0);
        self.remove_key_from_list(kind, k);
    }

    fn remove_key_from_list(&mut self, kind: ListKind, k: HashKey)
        ensures
            final(self)@ == model_remove_from_list(old(self)@, kind, k),
    {
        self.list_remove(kind, k);
        let n = wbk_count(self.list_ref(kind));
        self.stats.set(Self::list_event_of(kind), n as i64);
        assert(self@ =~= model_remove_from_list(old(self)@, kind, k));
    }

    /// Whether `info_hash` is in the list `kind`.
    pub fn check_list(&self, kind: ListKind, info_hash: InfoHash) -> (r: bool)
        ensures
            r == list_of(self@, kind).contains_key(key_of(info_hash@)),
    {
        let k = hash_key(&info_hash.0);
        self.list_ref(kind).contains_key(&k)
    }

    /// Empties the list `kind`.
    pub fn clear_list(&mut self, kind: ListKind)
        ensures
            final(self)@ == model_clear_list(old(self)@, kind),
    {
        self.list_clear(kind);
        self.stats.set(Self::list_event_of(kind), 0);
        assert(self@ =~= model_clear_list(old(self)@, kind));
    }

    /// After the entries `saved` of the list `kind` were written to storage:
    /// those flagged for deletion go, new ones become stored.
    pub fn list_saved(&mut self, kind: ListKind, saved: Vec<(InfoHash, i64)>)
        requires
            after_save_fits(old(self)@, kind, keyed_values(saved@)),
        ensures
            final(self)@ == model_after_save(old(self)@, kind, keyed_values(saved@)),
    {
        let ghost m = self@;
        let ghost sv = keyed_values(saved@);
        let mut i: usize = 0;
        while i < saved.len()
            invariant
                i <= saved@.len(),
                sv == keyed_values(saved@),
                self@ == model_after_save(m, kind, sv.take(i as int)),
                after_save_fits(m, kind, sv),
            decreases saved@.len() - i,
        {
            let (info_hash, value) = saved[i];
            let k = hash_key(&info_hash.0);
            proof {
                assert(sv.take(i + 1).drop_last() =~= sv.take(i as int));
                assert(sv.take(i + 1).last() == (k, value));
                lemma_after_save_fits_prefix(m, kind, sv, i + 1);
            }
            if value == 0 {
                self.remove_key_from_list(kind, k);
            }
            if value == 2 {
                self.list_insert(kind, k, 1);
                self.stats.update(Self::list_event_of(kind), 1);
                assert(self@ =~= model_add_to_list(model_after_save(m, kind, sv.take(i as int)), kind, k, 1));
            }
            i = i + 1;
        }
        assert(sv.take(saved@.len() as int) =~= sv);
    }

    /// Adds `info_hash` to the whitelist: stored (1) when loaded from storage,
    /// new (2) otherwise.
    pub fn add_whitelist(&mut self, info_hash: InfoHash, on_load: bool)
        requires
            bump_fits(old(self)@.stats, StatsEvent::Whitelist, 1),
        ensures
            final(self)@ == model_add_to_list(old(self)@, ListKind::Whitelist, key_of(info_hash@), add_flag(on_load)),
    {
        let flag: i64 = if on_load { 1 } else { 2 };
        self.add_to_list(ListKind::Whitelist, info_hash, flag);
    }

    /// The whitelist, in increasing hash order.
    pub fn get_whitelist(&self) -> (r: Vec<(InfoHash, i64)>)
        ensures
            keyed_values(r@) == owned_entries(
                vstd::std_specs::btree::spec_btree_map_iter(&self.whitelist).remaining(),
            ),
    {
        self.get_list(ListKind::Whitelist)
    }

    /// Flags `info_hash` for deletion from the whitelist.
    pub fn remove_flag_whitelist(&mut self, info_hash: InfoHash)
        ensures
            final(self)@ == model_remove_flag(old(self)@, ListKind::Whitelist, key_of(info_hash@)),
    {
        self.remove_flag(ListKind::Whitelist, info_hash);
    }

    /// Takes `info_hash` out of the whitelist.
    pub fn remove_whitelist(&mut self, info_hash: InfoHash)
        ensures
            final(self)@ == model_remove_from_list(old(self)@, ListKind::Whitelist, key_of(info_hash@)),
    {
        self.remove_from_list(ListKind::Whitelist, info_hash);
    }

    /// Whether `info_hash` is on the whitelist.
    pub fn check_whitelist(&self, info_hash: InfoHash) -> (r: bool)
        ensures
            r == self@.whitelist.contains_key(key_of(info_hash@)),
    {
        self.check_list(ListKind::Whitelist, info_hash)
    }

    /// Empties the whitelist.
    pub fn clear_whitelist(&mut self)
        ensures
            final(self)@ == model_clear_list(old(self)@, ListKind::Whitelist),
    {
        self.clear_list(ListKind::Whitelist);
    }

    /// Adds `info_hash` to the blacklist: stored (1) when loaded from storage,
    /// new (2) otherwise.
    pub fn add_blacklist(&mut self, info_hash: InfoHash, on_load: bool)
        requires
            bump_fits(old(self)@.stats, StatsEvent::Blacklist, 1),
        ensures
            final(self)@ == model_add_to_list(old(self)@, ListKind::Blacklist, key_of(info_hash@), add_flag(on_load)),
    {
        let flag: i64 = if on_load { 1 } else { 2 };
        self.add_to_list(ListKind::Blacklist, info_hash, flag);
    }

    /// The blacklist, in increasing hash order.
    pub fn get_blacklist(&self) -> (r: Vec<(InfoHash, i64)>)
        ensures
            keyed_values(r@) == owned_entries(
                vstd::std_specs::btree::spec_btree_map_iter(&self.blacklist).remaining(),
            ),
    {
        self.get_list(ListKind::Blacklist)
    }

    /// Flags `info_hash` for deletion from the blacklist.
    pub fn remove_flag_blacklist(&mut self, info_hash: InfoHash)
        ensures
            final(self)@ == model_remove_flag(old(self)@, ListKind::Blacklist, key_of(info_hash@)),
    {
        self.remove_flag(ListKind::Blacklist, info_hash);
    }

    /// Takes `info_hash` out of the blacklist.
    pub fn remove_blacklist(&mut self, info_hash: InfoHash)
        ensures
            final(self)@ == model_remove_from_list(old(self)@, ListKind::Blacklist, key_of(info_hash@)),
    {
        self.remove_from_list(ListKind::Blacklist, info_hash);
    }

    /// Whether `info_hash` is on the blacklist.
    pub fn check_blacklist(&self, info_hash: InfoHash) -> (r: bool)
        ensures
            r == self@.blacklist.contains_key(key_of(info_hash@)),
    {
        self.check_list(ListKind::Blacklist, info_hash)
    }

    /// Empties the blacklist.
    pub fn clear_blacklist(&mut self)
        ensures
            final(self)@ == model_clear_list(old(self)@, ListKind::Blacklist),
    {
        self.clear_list(ListKind::Blacklist);
    }

    /// Adds the key `info_hash`, expiring `timeout` seconds after `now`
    /// (seconds since the epoch).
    pub fn add_key(&mut self, info_hash: InfoHash, timeout: i64, now: i64)
        requires
            bump_fits(old(self)@.stats, StatsEvent::Key, 1),
            fits_i64(now + timeout),
        ensures
            final(self)@ == model_add_to_list(old(self)@, ListKind::Keys, key_of(info_hash@), (now + timeout) as i64),
    {
        self.add_to_list(ListKind::Keys, info_hash, now + timeout);
    }

    /// The keys with the time each expires, in increasing hash order.
    pub fn get_keys(&self) -> (r: Vec<(InfoHash, i64)>)
        ensures
            keyed_values(r@) == owned_entries(
                vstd::std_specs::btree::spec_btree_map_iter(&self.keys).remaining(),
            ),
    {
        self.get_list(ListKind::Keys)
    }

    /// Flags the key `info_hash` for deletion.
    pub fn remove_flag_key(&mut self, info_hash: InfoHash)
        ensures
            final(self)@ == model_remove_flag(old(self)@, ListKind::Keys, key_of(info_hash@)),
    {
        self.remove_flag(ListKind::Keys, info_hash);
    }

    /// Takes the key `info_hash` out.
    pub fn remove_key(&mut self, info_hash: InfoHash)
        ensures
            final(self)@ == model_remove_from_list(old(self)@, ListKind::Keys, key_of(info_hash@)),
    {
        self.remove_from_list(ListKind::Keys, info_hash);
    }

    /// Whether `info_hash` is a key.
    pub fn check_key(&self, info_hash: InfoHash) -> (r: bool)
        ensures
            r == self@.keys.contains_key(key_of(info_hash@)),
    {
        self.check_list(ListKind::Keys, info_hash)
    }

    /// Removes every key that has expired at `now` (milliseconds since the
    /// epoch), walking the keys in increasing hash order.
    pub fn clean_keys(&mut self, now: i64)
        requires
            forall|k: HashKey|
                old(self)@.keys.contains_key(k) && old(self)@.keys[k] != 0 ==> utc_representable(
                    #[trigger] old(self)@.keys[k],
                ),
        ensures
            final(self)@ == model_clean_keys(
                old(self)@,
                owned_entries(vstd::std_specs::btree::spec_btree_map_iter(&old(self).keys).remaining()),
                now,
            ),
            forall|x: HashKey|
                #[trigger] final(self)@.keys.contains_key(x) <==> (old(self)@.keys.contains_key(x) && !key_expired(
                    old(self)@.keys[x],
                    now,
                )),
            forall|x: HashKey| #[trigger] final(self)@.keys.contains_key(x) ==> final(self)@.keys[x] == old(self)@.keys[x],
    {
        let ghost m = self@;
        let ghost rem = vstd::std_specs::btree::spec_btree_map_iter(&self.keys).remaining();
        proof {
            lemma_walk(&self.keys, rem);
        }
        let keys = self.get_list(ListKind::Keys);
        let ghost es = keyed_values(keys@);
        let mut i: usize = 0;
        while i < keys.len()
            invariant
                i <= keys@.len(),
                es == keyed_values(keys@),
                self@ == model_clean_keys(m, es.take(i as int), now),
            decreases keys@.len() - i,
        {
            let (info_hash, timeout) = keys[i];
            let k = hash_key(&info_hash.0);
            proof {
                assert(es.take(i + 1).drop_last() =~= es.take(i as int));
                assert(es.take(i + 1).last() == (k, timeout));
            }
            if timeout != 0 && (timeout as i128) * 1000 < (now as i128) {
                self.remove_key_from_list(ListKind::Keys, k);
            }
            i = i + 1;
        }
        assert(es.take(keys@.len() as int) =~= es);
        proof {
            let w = owned_entries(rem);
            assert(es == w);
            lemma_clean_keys_drops_expired(m, es, now);
            assert forall|x: HashKey| m.keys.contains_key(x) implies named_in(es, x) by {
                assert(m.keys.dom().contains(x));
                let j = choose|j: int| 0 <= j < w.len() && #[trigger] w[j].0 == x;
                assert(es[j].0 == x);
            }
        }
    }

    /// Removes every key.
    pub fn clear_keys(&mut self)
        ensures
            final(self)@ == model_clear_list(old(self)@, ListKind::Keys),
    {
        self.clear_list(ListKind::Keys);
    }
}


impl TorrentTracker {
    /// Whether every key's expiry (other than 0, never) is a time that a UTC
    /// date can hold, as cleaning the keys needs.
    pub fn keys_representable_now(&self) -> (r: bool)
        ensures
            r == forall|k: HashKey|
                self@.keys.contains_key(k) && self@.keys[k] != 0 ==> utc_representable(#[trigger] self@.keys[k]),
    {
        let ghost rem = vstd::std_specs::btree::spec_btree_map_iter(&self.keys).remaining();
        let ghost w = owned_entries(rem);
        proof {
            lemma_walk(&self.keys, rem);
        }
        let mut ok = true;
        for kv in it: self.keys.iter()
            invariant
                rem == vstd::std_specs::btree::spec_btree_map_iter(&self.keys).remaining(),
                w == owned_entries(rem),
                it.seq() == rem,
                ok == forall|j: int|
                    0 <= j < it.index() ==> ((#[trigger] w[j]).1 != 0 ==> utc_representable(w[j].1)),
        {
            let ghost idx = it.index();
            assert(w[idx] == (*kv.0, *kv.1));
            let t = *kv.1;
            if t != 0 && !(-8_334_601_315_200i64 <= t && t <= 8_210_266_876_799i64) {
                ok = false;
            }
        }
        proof {
            if ok {
                assert forall|k: HashKey|
                    self@.keys.contains_key(k) && self@.keys[k] != 0 implies utc_representable(
                    #[trigger] self@.keys[k],
                ) by {
                    assert(self.keys@.dom().contains(k));
                    let j = choose|j: int| 0 <= j < w.len() && #[trigger] w[j].0 == k;
                    assert(w[j].1 == self.keys@[k]);
                }
            } else {
                let j = choose|j: int| !(0 <= j < w.len() ==> ((#[trigger] w[j]).1 != 0 ==> utc_representable(w[j].1)));
                assert(self@.keys.contains_key(w[j].0));
            }
        }
        ok
    }
}


impl TorrentTracker {
    /// Adds the key `info_hash` expiring at `timeout` (seconds since the
    /// epoch) as it is, when it is permanent (timeout 0) or that time has
    /// not passed at `now_ms` (milliseconds since the epoch); a key that has
    /// already expired is not added.
    pub fn add_key_raw(&mut self, info_hash: InfoHash, timeout: i64, now_ms: i64)
        requires
            utc_representable(timeout),
            bump_fits(old(self)@.stats, StatsEvent::Key, 1),
        ensures
            (timeout == 0 || timeout * 1000 >= now_ms) ==> final(self)@ == model_add_to_list(
                old(self)@,
                ListKind::Keys,
                key_of(info_hash@),
                timeout,
            ),
            !(timeout == 0 || timeout * 1000 >= now_ms) ==> final(self)@ == old(self)@,
    {
        if timeout == 0 || timeout * 1000 >= now_ms {
            self.add_to_list(ListKind::Keys, info_hash, timeout);
        }
    }
}

} // verus!
