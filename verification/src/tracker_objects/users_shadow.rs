//! Users being written out.

use vstd::prelude::*;
use vstd::std_specs::iter::IteratorSpec;
use crate::common::UserId;
use crate::tracker::{TorrentTracker, TrackerModel, lemma_user_models_dom, user_models};
use crate::tracker::keyed::{HashKey, hash_key, key_bytes, key_of, owned_entries};
use crate::tracker_objects::stats::{StatsEvent, with_counter};
use crate::tracker_objects::updates::remove_all;
use crate::tracker_objects::users::{UserEntryItem, UserModel, keyed_users, user_entries};

verus! {

broadcast use vstd::std_specs::btree::group_btree_axioms;

/// Putting the user `k` into the shadow; its count becomes its size.
pub open spec fn model_add_users_shadow(m: TrackerModel, k: HashKey, u: UserModel) -> TrackerModel {
    let users_shadow = m.users_shadow.insert(k, u);
    TrackerModel {
        users_shadow,
        stats: with_counter(m.stats, StatsEvent::UsersShadow, users_shadow.len() as i64),
        ..m
    }
}

/// Taking the users of `ks` out of the shadow; the count becomes the number
/// left, or zero when `ks` is empty.
pub open spec fn model_remove_users_shadows(m: TrackerModel, ks: Seq<HashKey>) -> TrackerModel {
    let users_shadow = remove_all(m.users_shadow, ks);
    TrackerModel {
        users_shadow,
        stats: with_counter(
            m.stats,
            StatsEvent::UsersShadow,
            if ks.len() == 0 { 0 } else { users_shadow.len() as i64 },
        ),
        ..m
    }
}

/// The keys of a list of user ids.
pub open spec fn user_keys(us: Seq<UserId>) -> Seq<HashKey> {
    us.map_values(|u: UserId| key_of(u@))
}

impl TorrentTracker {
    /// Puts the user `user_id` into the shadow.
    pub fn add_users_shadow(&mut self, user_id: UserId, user_entry_item: UserEntryItem)
        ensures
            final(self)@ == model_add_users_shadow(old(self)@, key_of(user_id@), user_entry_item@),
    {
        let ghost u = user_entry_item@;
        let k = hash_key(&user_id.0);
        self.users_shadow.insert(k, user_entry_item);
        let n = self.users_shadow.len();
        self.stats.set(StatsEvent::UsersShadow, n as i64);
        proof {
            lemma_user_models_dom(self.users_shadow@);
            assert(user_models(self.users_shadow@) =~= old(self)@.users_shadow.insert(k, u));
        }
        assert(self@ =~= model_add_users_shadow(old(self)@, k, u));
    }

    /// Takes the user `user_id` out of the shadow.
    pub fn remove_users_shadow(&mut self, user_id: UserId)
        ensures
            final(self)@ == model_remove_users_shadows(old(self)@, seq![key_of(user_id@)]),
    {
        let k = hash_key(&user_id.0);
        self.users_shadow.remove(&k);
        let n = self.users_shadow.len();
        self.stats.set(StatsEvent::UsersShadow, n as i64);
        proof {
            lemma_user_models_dom(self.users_shadow@);
            assert(seq![k].drop_last() =~= Seq::<HashKey>::empty());
            assert(remove_all(old(self)@.users_shadow, Seq::<HashKey>::empty()) == old(self)@.users_shadow);
            assert(remove_all(old(self)@.users_shadow, seq![k]) == old(self)@.users_shadow.remove(k));
            assert(user_models(self.users_shadow@) =~= old(self)@.users_shadow.remove(k));
        }
        assert(self@ =~= model_remove_users_shadows(old(self)@, seq![k]));
    }

    /// Takes the users of `hashes` out of the shadow.
    pub fn remove_users_shadows(&mut self, hashes: Vec<UserId>)
        ensures
            final(self)@ == model_remove_users_shadows(old(self)@, user_keys(hashes@)),
    {
        let ghost m = self@;
        let ghost ks = user_keys(hashes@);
        let mut count: usize = 0;
        let mut i: usize = 0;
        while i < hashes.len()
            invariant
                i <= hashes@.len(),
                ks == user_keys(hashes@),
                self@ == (TrackerModel { users_shadow: remove_all(m.users_shadow, ks.take(i as int)), ..m }),
                count == (if i == 0 { 0 } else { self.users_shadow@.len() }),
            decreases hashes@.len() - i,
        {
            let k = hash_key(&hashes[i].0);
            proof {
                assert(ks.take(i + 1).drop_last() =~= ks.take(i as int));
                assert(ks.take(i + 1).last() == k);
            }
            self.users_shadow.remove(&k);
            count = self.users_shadow.len();
            i = i + 1;
            proof {
                lemma_user_models_dom(self.users_shadow@);
                assert(user_models(self.users_shadow@) =~= remove_all(m.users_shadow, ks.take(i as int)));
            }
            assert(self@ =~= (TrackerModel { users_shadow: remove_all(m.users_shadow, ks.take(i as int)), ..m }));
        }
        assert(ks.take(hashes@.len() as int) =~= ks);
        self.stats.set(StatsEvent::UsersShadow, count as i64);
        proof {
            lemma_user_models_dom(self.users_shadow@);
        }
        assert(self@ =~= model_remove_users_shadows(m, ks));
    }

    /// The users in the shadow, in increasing key order.
    pub fn get_users_shadow(&self) -> (r: Vec<(UserId, UserEntryItem)>)
        ensures
            keyed_users(r@) == user_entries(
                owned_entries(vstd::std_specs::btree::spec_btree_map_iter(&self.users_shadow).remaining()),
            ),
    {
        let ghost rem = vstd::std_specs::btree::spec_btree_map_iter(&self.users_shadow).remaining();
        let ghost w = user_entries(owned_entries(rem));
        let mut r: Vec<(UserId, UserEntryItem)> = Vec::new();
        for kv in it: self.users_shadow.iter()
            invariant
                rem == vstd::std_specs::btree::spec_btree_map_iter(&self.users_shadow).remaining(),
                w == user_entries(owned_entries(rem)),
                it.seq() == rem,
                keyed_users(r@) == w.take(it.index() as int),
                it.index() == w.len() ==> keyed_users(r@) == w,
        {
            let ghost idx = it.index();
            let ghost old_r = r@;
            let u = kv.1.copy();
            r.push((UserId(key_bytes(*kv.0)), u));
            assert(w[idx] == (*kv.0, kv.1@));
            assert(keyed_users(r@) =~= keyed_users(old_r).push((*kv.0, kv.1@)));
            assert(w.take(idx + 1) =~= w.take(idx).push(w[idx]));
            assert(w.take(w.len() as int) =~= w);
        }
        r
    }

    /// Empties the shadow of users.
    pub fn clear_users_shadow(&mut self)
        ensures
            final(self)@ == (TrackerModel {
                users_shadow: Map::empty(),
                stats: with_counter(old(self)@.stats, StatsEvent::UsersShadow, 0),
                ..old(self)@
            }),
    {
        self.users_shadow.clear();
        self.stats.set(StatsEvent::UsersShadow, 0);
        assert(user_models(self.users_shadow@) =~= Map::<HashKey, UserModel>::empty());
        assert(self@ =~= (TrackerModel {
            users_shadow: Map::empty(),
            stats: with_counter(old(self)@.stats, StatsEvent::UsersShadow, 0),
            ..old(self)@
        }));
    }
}

} // verus!
