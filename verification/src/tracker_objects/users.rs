//! Users: their counters and the torrents they are active in.

use vstd::prelude::*;
use std::collections::BTreeMap;
use vstd::std_specs::iter::IteratorSpec;
use crate::common::UserId;
use crate::tracker::{TorrentTracker, TrackerModel, lemma_user_models_dom, user_models};
use crate::tracker::keyed::{HashKey, hash_key, key_bytes, key_list, key_of, lemma_all_taken, lemma_not_before, lemma_take_one_more, lemma_walk, owned_entries};
use crate::tracker_objects::stats::{StatsEvent, with_counter};

verus! {

broadcast use vstd::std_specs::btree::group_btree_axioms;

/// A user as the tracker holds it. `torrents_active` gives, for each torrent
/// the user is active in, when the user last announced it (milliseconds on
/// the caller's clock).
#[derive(Clone, Debug)]
pub struct UserEntryItem {
    pub uuid: String,
    pub key: UserId,
    pub uploaded: u64,
    pub downloaded: u64,
    pub completed: u64,
    pub updated: u64,
    pub active: u8,
    pub torrents_active: BTreeMap<HashKey, u64>,
}

/// A user as plain values.
pub struct UserModel {
    pub uuid: Seq<char>,
    pub key: Seq<u8>,
    pub uploaded: u64,
    pub downloaded: u64,
    pub completed: u64,
    pub updated: u64,
    pub active: u8,
    pub torrents_active: Map<HashKey, u64>,
}

impl View for UserEntryItem {
    type V = UserModel;

    open spec fn view(&self) -> UserModel {
        UserModel {
            uuid: self.uuid@,
            key: self.key@,
            uploaded: self.uploaded,
            downloaded: self.downloaded,
            completed: self.completed,
            updated: self.updated,
            active: self.active,
            torrents_active: self.torrents_active@,
        }
    }
}

impl UserEntryItem {
    /// A copy with the same contents.
    pub fn copy(&self) -> (r: UserEntryItem)
        ensures
            r@ == self@,
    {
        UserEntryItem {
            uuid: self.uuid.clone(),
            key: self.key,
            uploaded: self.uploaded,
            downloaded: self.downloaded,
            completed: self.completed,
            updated: self.updated,
            active: self.active,
            torrents_active: self.torrents_active.clone(),
        }
    }
}

/// An optional user as plain values.
pub open spec fn user_view(o: Option<UserEntryItem>) -> Option<UserModel> {
    match o {
        Some(u) => Some(u@),
        None => None,
    }
}

/// The user `k` of `m`, if there is one.
pub open spec fn lookup_user(m: Map<HashKey, UserModel>, k: HashKey) -> Option<UserModel> {
    if m.contains_key(k) {
        Some(m[k])
    } else {
        None
    }
}

/// Adding or replacing the user `k`; the user count becomes the number of
/// users.
pub open spec fn model_add_user(m: TrackerModel, k: HashKey, u: UserModel) -> TrackerModel {
    let users = m.users.insert(k, u);
    TrackerModel { users, stats: with_counter(m.stats, StatsEvent::Users, users.len() as i64), ..m }
}

/// Adding the users of `us` in turn; the count is set once, at the end.
pub open spec fn model_add_users(m: TrackerModel, us: Seq<(HashKey, UserModel)>) -> TrackerModel {
    let users = insert_users(m.users, us);
    TrackerModel { users, stats: with_counter(m.stats, StatsEvent::Users, users.len() as i64), ..m }
}

/// Inserting the users of `us` in turn.
pub open spec fn insert_users(m: Map<HashKey, UserModel>, us: Seq<(HashKey, UserModel)>) -> Map<HashKey, UserModel>
    decreases us.len(),
{
    if us.len() == 0 {
        m
    } else {
        insert_users(m, us.drop_last()).insert(us.last().0, us.last().1)
    }
}

/// Taking the user `k` out; the count becomes the number of users left.
pub open spec fn model_remove_user(m: TrackerModel, k: HashKey) -> TrackerModel {
    let users = m.users.remove(k);
    TrackerModel { users, stats: with_counter(m.stats, StatsEvent::Users, users.len() as i64), ..m }
}

/// The keys and plain values of a list of users.
pub open spec fn keyed_users(us: Seq<(UserId, UserEntryItem)>) -> Seq<(HashKey, UserModel)> {
    us.map_values(|p: (UserId, UserEntryItem)| (key_of(p.0@), p.1@))
}

/// The users of a walk, as plain values.
pub open spec fn user_entries(w: Seq<(HashKey, UserEntryItem)>) -> Seq<(HashKey, UserModel)> {
    w.map_values(|p: (HashKey, UserEntryItem)| (p.0, p.1@))
}


/// Whether an activity stamped `at` lies more than `timeout` before `now`
/// (a stamp after `now` has no age).
pub open spec fn timed_out(at: u64, timeout: u64, now: u64) -> bool {
    now - at > timeout
}

/// The active torrents whose stamps have not timed out.
pub open spec fn fresh_torrents(m: Map<HashKey, u64>, timeout: u64, now: u64) -> Map<HashKey, u64> {
    Map::new(|k: HashKey| m.contains_key(k) && !timed_out(m[k], timeout, now), |k: HashKey| m[k])
}

/// The user without the active torrents that timed out.
pub open spec fn cleaned_user(u: UserModel, timeout: u64, now: u64) -> UserModel {
    UserModel { torrents_active: fresh_torrents(u.torrents_active, timeout, now), ..u }
}

/// The users whose keys `done` holds cleaned, the others as they were; once
/// any user was written back, the user count is the number of users.
pub open spec fn users_cleaned_for(m: TrackerModel, done: Seq<HashKey>, timeout: u64, now: u64) -> TrackerModel {
    let users = Map::new(
        |k: HashKey| m.users.contains_key(k),
        |k: HashKey|
            if done.contains(k) {
                cleaned_user(m.users[k], timeout, now)
            } else {
                m.users[k]
            },
    );
    let stats = if done.len() > 0 {
        with_counter(m.stats, StatsEvent::Users, m.users.len() as i64)
    } else {
        m.stats
    };
    TrackerModel { users, stats, ..m }
}

/// Every user cleaned of the active torrents that timed out; when there is
/// any user, the user count is set to the number of users.
pub open spec fn model_clean_users(m: TrackerModel, timeout: u64, now: u64) -> TrackerModel {
    let users = Map::new(
        |k: HashKey| m.users.contains_key(k),
        |k: HashKey| cleaned_user(m.users[k], timeout, now),
    );
    let stats = if m.users.len() > 0 {
        with_counter(m.stats, StatsEvent::Users, m.users.len() as i64)
    } else {
        m.stats
    };
    TrackerModel { users, stats, ..m }
}

/// The entries of `m` whose stamps have not timed out.
fn fresh_copy(m: &BTreeMap<HashKey, u64>, timeout: u64, now: u64) -> (r: BTreeMap<HashKey, u64>)
    ensures
        r@ == fresh_torrents(m@, timeout, now),
{
    let ks = key_list(m);
    let mut r: BTreeMap<HashKey, u64> = BTreeMap::new();
    let mut i: usize = 0;
    while i < ks.len()
        invariant
            i <= ks@.len(),
            ks@.to_set() == m@.dom(),
            r@ == Map::new(
                |k: HashKey| ks@.take(i as int).contains(k) && m@.contains_key(k) && !timed_out(m@[k], timeout, now),
                |k: HashKey| m@[k],
            ),
        decreases ks@.len() - i,
    {
        let k = ks[i];
        assert(ks@.to_set().contains(k));
        let at = match m.get(&k) {
            Some(v) => *v,
            None => 0,
        };
        let stale = now > at && now - at > timeout;
        if !stale {
            r.insert(k, at);
        }
        proof {
            lemma_take_one_more(ks@, i as int);
            assert(r@ =~= Map::new(
                |x: HashKey| ks@.take(i + 1).contains(x) && m@.contains_key(x) && !timed_out(m@[x], timeout, now),
                |x: HashKey| m@[x],
            ));
        }
        i = i + 1;
    }
    proof {
        lemma_all_taken(ks@, m@.dom());
        assert(r@ =~= fresh_torrents(m@, timeout, now));
    }
    r
}

impl UserEntryItem {
    /// A copy without the active torrents whose stamps timed out.
    pub fn without_stale(&self, timeout: u64, now: u64) -> (r: UserEntryItem)
        ensures
            r@ == cleaned_user(self@, timeout, now),
    {
        UserEntryItem {
            uuid: self.uuid.clone(),
            key: self.key,
            uploaded: self.uploaded,
            downloaded: self.downloaded,
            completed: self.completed,
            updated: self.updated,
            active: self.active,
            torrents_active: fresh_copy(&self.torrents_active, timeout, now),
        }
    }
}

impl TorrentTracker {
    /// The user `user_key`, if there is one.
    pub fn get_user(&self, user_key: UserId) -> (r: Option<UserEntryItem>)
        ensures
            user_view(r) == lookup_user(self@.users, key_of(user_key@)),
    {
        let k = hash_key(&user_key.0);
        match self.users.get(&k) {
            Some(u) => Some(u.copy()),
            None => None,
        }
    }

    /// Each user of `users`, or `None` where there is none, in the order
    /// asked.
    pub fn get_users(&self, users: Vec<UserId>) -> (r: Vec<(UserId, Option<UserEntryItem>)>)
        ensures
            r@.len() == users@.len(),
            forall|i: int|
                0 <= i < users@.len() ==> (#[trigger] r@[i]).0 == users@[i] && user_view(r@[i].1)
                    == lookup_user(self@.users, key_of(users@[i]@)),
    {
        let mut r: Vec<(UserId, Option<UserEntryItem>)> = Vec::new();
        let mut i: usize = 0;
        while i < users.len()
            invariant
                i <= users@.len(),
                r@.len() == i,
                forall|j: int|
                    0 <= j < i ==> (#[trigger] r@[j]).0 == users@[j] && user_view(r@[j].1)
                        == lookup_user(self@.users, key_of(users@[j]@)),
            decreases users@.len() - i,
        {
            let u = users[i];
            let e = self.get_user(u);
            r.push((u, e));
            i = i + 1;
        }
        r
    }

    /// Up to `amount` users in increasing key order, after skipping the
    /// first `skip`.
    pub fn get_users_chunk(&self, skip: u64, amount: u64) -> (r: Vec<(UserId, UserEntryItem)>)
        ensures
            ({
                let w = user_entries(owned_entries(vstd::std_specs::btree::spec_btree_map_iter(&self.users).remaining()));
                let lo: int = if skip < w.len() { skip as int } else { w.len() as int };
                let hi: int = if skip + amount < w.len() { skip + amount } else { w.len() as int };
                keyed_users(r@) == w.subrange(lo, hi)
            }),
    {
        let ghost rem = vstd::std_specs::btree::spec_btree_map_iter(&self.users).remaining();
        let ghost w = user_entries(owned_entries(rem));
        proof {
            lemma_walk(&self.users, rem);
        }
        let mut r: Vec<(UserId, UserEntryItem)> = Vec::new();
        let mut current_count: u64 = 0;
        let mut handled_count: u64 = 0;
        let ghost lo: int = if skip < w.len() { skip as int } else { w.len() as int };
        let ghost hi: int = if skip + amount < w.len() { skip + amount } else { w.len() as int };
        for kv in it: self.users.iter()
            invariant_except_break
                current_count == it.index(),
                handled_count == (if it.index() <= skip { 0 } else { it.index() - skip }),
                it.index() == w.len() ==> keyed_users(r@) == w.subrange(lo, hi),
            invariant
                rem == vstd::std_specs::btree::spec_btree_map_iter(&self.users).remaining(),
                w == user_entries(owned_entries(rem)),
                it.seq() == rem,
                w.len() == self.users@.len(),
                self.users@.len() == self.users.len(),
                lo == (if skip < w.len() { skip as int } else { w.len() as int }),
                hi == (if skip + amount < w.len() { skip + amount } else { w.len() as int }),
                handled_count <= amount,
                keyed_users(r@) == w.subrange(lo, lo + handled_count),
            ensures
                keyed_users(r@) == w.subrange(lo, hi),
        {
            if current_count < skip {
                current_count = current_count + 1;
            } else {
                if handled_count >= amount {
                    break;
                }
                let ghost idx = it.index();
                let ghost old_r = r@;
                let u = kv.1.copy();
                r.push((UserId(key_bytes(*kv.0)), u));
                assert(w[idx] == (*kv.0, kv.1@));
                assert(keyed_users(r@) =~= keyed_users(old_r).push((*kv.0, kv.1@)));
                assert(w.subrange(lo, lo + handled_count + 1) =~= w.subrange(lo, lo + handled_count).push(w[idx]));
                current_count = current_count + 1;
                handled_count = handled_count + 1;
            }
        }
        r
    }

    /// Adds or replaces the user `user_key`.
    pub fn add_user(&mut self, user_key: UserId, user_entry_item: UserEntryItem)
        ensures
            final(self)@ == model_add_user(old(self)@, key_of(user_key@), user_entry_item@),
    {
        let k = hash_key(&user_key.0);
        self.insert_user(k, user_entry_item);
    }

    fn insert_user(&mut self, k: HashKey, user_entry_item: UserEntryItem)
        ensures
            final(self)@ == model_add_user(old(self)@, k, user_entry_item@),
    {
        let ghost u = user_entry_item@;
        self.users.insert(k, user_entry_item);
        let n = self.users.len();
        self.stats.set(StatsEvent::Users, n as i64);
        proof {
            lemma_user_models_dom(self.users@);
            assert(user_models(self.users@) =~= old(self)@.users.insert(k, u));
        }
        assert(self@ =~= model_add_user(old(self)@, k, u));
    }

    /// Adds or replaces each user of `users` in turn.
    pub fn add_users(&mut self, users: Vec<(UserId, UserEntryItem)>, persistent: bool)
        ensures
            final(self)@ == model_add_users(old(self)@, keyed_users(users@)),
    {
        let ghost m = self@;
        let ghost us = keyed_users(users@);
        let mut i: usize = 0;
        while i < users.len()
            invariant
                i <= users@.len(),
                us == keyed_users(users@),
                self@ == (TrackerModel { users: insert_users(m.users, us.take(i as int)), ..m }),
            decreases users@.len() - i,
        {
            let k = hash_key(&users[i].0.0);
            let u = users[i].1.copy();
            proof {
                assert(us.take(i + 1).drop_last() =~= us.take(i as int));
                assert(us.take(i + 1).last() == (k, u@));
            }
            self.users.insert(k, u);
            i = i + 1;
            assert(self@ =~= (TrackerModel { users: insert_users(m.users, us.take(i as int)), ..m }));
        }
        assert(us.take(users@.len() as int) =~= us);
        let n = self.users.len();
        self.stats.set(StatsEvent::Users, n as i64);
        proof {
            lemma_user_models_dom(self.users@);
        }
        assert(self@ =~= model_add_users(m, us));
    }

    /// Removes the user `user_key`.
    pub fn remove_user(&mut self, user_key: UserId)
        ensures
            final(self)@ == model_remove_user(old(self)@, key_of(user_key@)),
    {
        let k = hash_key(&user_key.0);
        self.users.remove(&k);
        let n = self.users.len();
        self.stats.set(StatsEvent::Users, n as i64);
        proof {
            lemma_user_models_dom(self.users@);
            assert(user_models(self.users@) =~= old(self)@.users.remove(k));
        }
        assert(self@ =~= model_remove_user(old(self)@, k));
    }

    /// Whether `hash` is the key of a user.
    pub fn check_user_key(&self, hash: UserId) -> (r: bool)
        ensures
            r == self@.users.contains_key(key_of(hash@)),
    {
        let k = hash_key(&hash.0);
        self.users.contains_key(&k)
    }

    /// Drops, from every user, the active torrents whose last announce lies
    /// more than `peer_timeout` before `now`, and writes each user back.
    pub fn clean_users_active_torrents(&mut self, peer_timeout: u64, now: u64)
        ensures
            final(self)@ == model_clean_users(old(self)@, peer_timeout, now),
    {
        let ghost m = self@;
        proof {
            lemma_user_models_dom(self.users@);
        }
        let ks = key_list(&self.users);
        let mut i: usize = 0;
        while i < ks.len()
            invariant
                i <= ks@.len(),
                ks@.to_set() == m.users.dom(),
                ks@.no_duplicates(),
                m.users.dom().finite(),
                self@ == users_cleaned_for(m, ks@.take(i as int), peer_timeout, now),
            decreases ks@.len() - i,
        {
            let k = ks[i];
            assert(ks@.to_set().contains(k));
            proof {
                lemma_user_models_dom(self.users@);
                lemma_not_before(ks@, i as int);
            }
            assert(self@.users.contains_key(k));
            assert(self.users@.contains_key(k));
            assert(self@.users[k] == m.users[k]);
            assert(self.users@[k]@ == self@.users[k]);
            let cleaned = match self.users.get(&k) {
                Some(u) => Some(u.without_stale(peer_timeout, now)),
                None => None,
            };
            assert(cleaned is Some);
            assert(cleaned.unwrap()@ == cleaned_user(m.users[k], peer_timeout, now));
            match cleaned {
                Some(u) => {
                    self.insert_user(k, u);
                },
                None => {},
            }
            proof {
                let done = ks@.take(i + 1);
                lemma_take_one_more(ks@, i as int);
                assert(done.len() > 0);
                let target = users_cleaned_for(m, done, peer_timeout, now);
                assert(target.users.dom() =~= m.users.dom());
                assert(self@.users =~= target.users);
                assert(self@ =~= target);
            }
            i = i + 1;
        }
        proof {
            lemma_all_taken(ks@, m.users.dom());
            let target = model_clean_users(m, peer_timeout, now);
            assert(self@.users =~= target.users);
            if m.users.len() > 0 {
                assert(ks@.len() > 0);
            } else {
                assert(ks@.len() == 0);
            }
            assert(self@ =~= target);
        }
    }
}

} // verus!
