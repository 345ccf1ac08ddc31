//! What holds of the tracker across its operations.

use vstd::prelude::*;
use crate::common::TorrentPeer;
use crate::tracker::TrackerModel;
use crate::tracker::keyed::HashKey;
use crate::tracker_objects::peers::{
    add_peer_fits, expired_pair, lists_expired, model_add_peer, model_remove_peer, model_remove_peers,
    remove_peer_step, remove_peers_steps,
};
use crate::tracker_objects::stats::{Stats, StatsEvent, counter, lemma_with_counter_same, with_counter};
use crate::tracker_objects::torrents::{
    TorrentEntryItem, lookup_torrent, model_add_torrent, model_peers, model_remove_torrent,
};
use crate::tracker_objects::updates::model_transfer_updates;
use crate::tracker_objects::users::{model_clean_users, timed_out};
use crate::tracker_objects::whitelist::{
    ListKind, list_of, model_add_to_list, model_remove_flag, model_remove_from_list,
};

verus! {

/// A pair that is expired after a run of removals was expired before, and
/// the run did not name it.
proof fn lemma_steps_keep_only_unnamed(
    m: TrackerModel,
    ps: Seq<(HashKey, HashKey)>,
    persistent: bool,
    peer_timeout: u64,
    now: u64,
    k: HashKey,
    pk: HashKey,
)
    ensures
        expired_pair(remove_peers_steps(m, ps, persistent).0, k, pk, peer_timeout, now) ==> expired_pair(
            m,
            k,
            pk,
            peer_timeout,
            now,
        ) && !ps.contains((k, pk)),
    decreases ps.len(),
{
    if ps.len() > 0 {
        let init = ps.drop_last();
        lemma_steps_keep_only_unnamed(m, init, persistent, peer_timeout, now, k, pk);
        let m1 = remove_peers_steps(m, init, persistent).0;
        let (k0, pk0) = ps.last();
        let m2 = remove_peer_step(m1, k0, pk0, persistent).0;
        assert(remove_peers_steps(m, ps, persistent).0 == m2);
        if expired_pair(m2, k, pk, peer_timeout, now) {
            assert(m1.torrents.contains_key(k));
            assert(model_peers(m1.peers, k).contains_key(pk));
            assert(model_peers(m2.peers, k)[pk] == model_peers(m1.peers, k)[pk]);
            assert((k, pk) != (k0, pk0));
            assert(ps =~= init.push((k0, pk0)));
            if ps.contains((k, pk)) {
                let j = choose|j: int| 0 <= j < ps.len() && ps[j] == (k, pk);
                assert(j < init.len());
                assert(init[j] == (k, pk));
            }
        }
    }
}

/// Cleaning out the expired peers leaves no known torrent holding a peer
/// that has expired.
pub proof fn lemma_clean_peers_leaves_none_expired(
    m: TrackerModel,
    ps: Seq<(HashKey, HashKey)>,
    persistent: bool,
    peer_timeout: u64,
    now: u64,
)
    requires
        lists_expired(m, ps, peer_timeout, now),
    ensures
        forall|k: HashKey, pk: HashKey|
            !#[trigger] expired_pair(model_remove_peers(m, ps, persistent).0, k, pk, peer_timeout, now),
{
    assert forall|k: HashKey, pk: HashKey|
        !#[trigger] expired_pair(model_remove_peers(m, ps, persistent).0, k, pk, peer_timeout, now) by {
        lemma_steps_keep_only_unnamed(m, ps, persistent, peer_timeout, now, k, pk);
        let after = model_remove_peers(m, ps, persistent).0;
        let steps = remove_peers_steps(m, ps, persistent).0;
        assert(after.torrents == steps.torrents && after.peers == steps.peers);
        if expired_pair(after, k, pk, peer_timeout, now) {
            assert(expired_pair(steps, k, pk, peer_timeout, now));
            assert(ps.contains((k, pk)));
        }
    }
}


/// Announcing a peer that a known torrent did not hold, without the
/// completed event, and then taking it out again leaves the torrent's peers
/// as they were; a persistent tracker also gets its torrents and totals back.
pub proof fn lemma_add_then_remove_peer(
    m: TrackerModel,
    k: HashKey,
    pk: HashKey,
    peer: TorrentPeer,
    persistent: bool,
)
    requires
        m.torrents.contains_key(k),
        !model_peers(m.peers, k).contains_key(pk),
        model_peers(m.peers, k).dom().finite(),
        add_peer_fits(m, k, pk, peer, false),
    ensures
        ({
            let m1 = model_add_peer(m, k, pk, peer, false, persistent).0;
            let m2 = model_remove_peer(m1, k, pk, persistent).0;
            &&& model_peers(m2.peers, k) == model_peers(m.peers, k)
            &&& m2.updates == m.updates
            &&& persistent ==> m2.torrents == m.torrents && m2.stats == m.stats
        }),
{
    let m1 = model_add_peer(m, k, pk, peer, false, persistent).0;
    let m2 = model_remove_peer(m1, k, pk, persistent).0;
    let list = model_peers(m.peers, k);
    assert(model_peers(m1.peers, k) == list.insert(pk, peer));
    assert(list.insert(pk, peer).remove(pk) =~= list);
    if list.len() == 0 {
        list.dom().lemma_len0_is_empty();
        assert(list =~= Map::<HashKey, TorrentPeer>::empty());
    }
    assert(model_peers(m2.peers, k) =~= model_peers(m.peers, k));
    if persistent {
        assert(m2.torrents =~= m.torrents);
        lemma_with_counter_same(m.stats, StatsEvent::Seeds);
        lemma_with_counter_same(m.stats, StatsEvent::Peers);
        assert(m2.stats == m.stats);
    }
}


/// After a torrent is added, looking it up gives the counters it was added
/// with and the peers the tracker held for it.
pub proof fn lemma_add_then_get_torrent(m: TrackerModel, k: HashKey, item: TorrentEntryItem, persistent: bool)
    ensures
        ({
            let e = lookup_torrent(model_add_torrent(m, k, item, persistent), k);
            &&& e is Some
            &&& e.unwrap().completed == item.completed
            &&& e.unwrap().seeders == item.seeders
            &&& e.unwrap().leechers == item.leechers
            &&& e.unwrap().peers == model_peers(m.peers, k)
        }),
{
}

/// After a torrent is removed, looking it up finds nothing.
pub proof fn lemma_remove_then_get_torrent(m: TrackerModel, k: HashKey, persistent: bool)
    ensures
        lookup_torrent(model_remove_torrent(m, k, persistent), k) is None,
{
}

/// An entry added to a list is found in it with the value it was added
/// with; the other entries stay as they were.
pub proof fn lemma_add_then_check_list(m: TrackerModel, kind: ListKind, k: HashKey, v: i64)
    ensures
        list_of(model_add_to_list(m, kind, k, v), kind).contains_key(k),
        list_of(model_add_to_list(m, kind, k, v), kind)[k] == v,
        forall|x: HashKey|
            x != k ==> #[trigger] list_of(model_add_to_list(m, kind, k, v), kind).contains_key(x) == list_of(
                m,
                kind,
            ).contains_key(x),
{
}

/// An entry taken out of a list is no longer found in it; flagging it for
/// deletion keeps it, with the value 0, until the list is saved.
pub proof fn lemma_remove_then_check_list(m: TrackerModel, kind: ListKind, k: HashKey)
    ensures
        !list_of(model_remove_from_list(m, kind, k), kind).contains_key(k),
        list_of(m, kind).contains_key(k) ==> list_of(model_remove_flag(m, kind, k), kind).contains_key(k)
            && list_of(model_remove_flag(m, kind, k), kind)[k] == 0,
{
}

/// Moving the pending updates into the shadow empties the queue, and the
/// shadow then holds each update that was pending, with its value, and
/// every other entry it held before.
pub proof fn lemma_transfer_moves_every_update(m: TrackerModel)
    ensures
        model_transfer_updates(m).updates.len() == 0,
        forall|k: HashKey|
            #[trigger] m.updates.contains_key(k) ==> model_transfer_updates(m).shadow.contains_key(k)
                && model_transfer_updates(m).shadow[k] == m.updates[k],
        forall|k: HashKey|
            #[trigger] m.shadow.contains_key(k) && !m.updates.contains_key(k) ==> model_transfer_updates(
                m,
            ).shadow[k] == m.shadow[k],
{
    assert(model_transfer_updates(m).updates =~= Map::<HashKey, i64>::empty());
}

/// After the active torrents of the users are cleaned, no user keeps one
/// whose stamp timed out, and each one that had not timed out stays with its
/// stamp.
pub proof fn lemma_clean_users_keeps_fresh_only(m: TrackerModel, peer_timeout: u64, now: u64)
    ensures
        ({
            let after = model_clean_users(m, peer_timeout, now).users;
            &&& after.dom() == m.users.dom()
            &&& forall|u: HashKey, t: HashKey|
                after.contains_key(u) && #[trigger] after[u].torrents_active.contains_key(t) ==> !timed_out(
                    after[u].torrents_active[t],
                    peer_timeout,
                    now,
                )
            &&& forall|u: HashKey, t: HashKey|
                m.users.contains_key(u) && #[trigger] m.users[u].torrents_active.contains_key(t) && !timed_out(
                    m.users[u].torrents_active[t],
                    peer_timeout,
                    now,
                ) ==> after[u].torrents_active.contains_key(t) && after[u].torrents_active[t]
                    == m.users[u].torrents_active[t]
        }),
{
    let after = model_clean_users(m, peer_timeout, now).users;
    assert(after.dom() =~= m.users.dom());
}

/// Adding `v` to a counter and then `-v` gives the statistics back.
pub proof fn lemma_update_then_undo(s: Stats, e: StatsEvent, v: int)
    requires
        i64::MIN <= counter(s, e) + v <= i64::MAX,
    ensures
        ({
            let s1 = with_counter(s, e, (counter(s, e) + v) as i64);
            with_counter(s1, e, (counter(s1, e) - v) as i64) == s
        }),
{
    let s1 = with_counter(s, e, (counter(s, e) + v) as i64);
    crate::tracker_objects::stats::lemma_with_counter(s, e, (counter(s, e) + v) as i64, e);
    lemma_with_counter_same(s, e);
    assert(with_counter(s1, e, counter(s, e)) == with_counter(s, e, counter(s, e)));
}

} // verus!
