//! Each torrent's seeders and leechers are the numbers of its seeding and
//! leeching peers, and announces and departures keep them so.

use vstd::prelude::*;
use crate::common::TorrentPeer;
use crate::tracker::{TrackerModel, fits_i64};
use crate::tracker::keyed::{HashKey, lemma_map_sum_basics, lemma_map_sum_insert, lemma_map_sum_nonneg, lemma_map_sum_remove, map_sum};
use crate::tracker_channels::torrents_peers::{leech_one, seed_one};
use crate::tracker_objects::peers::{
    PeerChange, add_peer_change, add_peer_fits, changed_item, model_add_peer, model_remove_peer,
    model_remove_peers, one_if, peer_in, remove_peer_step, remove_peers_steps,
};
use crate::tracker_objects::torrents::{TorrentEntryItem, model_peers};

verus! {

/// How many peers of the list seed.
pub open spec fn seeders_of(list: Map<HashKey, TorrentPeer>) -> int {
    map_sum(list, |p: TorrentPeer| seed_one(p))
}

/// How many peers of the list leech.
pub open spec fn leechers_of(list: Map<HashKey, TorrentPeer>) -> int {
    map_sum(list, |p: TorrentPeer| leech_one(p))
}

/// Every known torrent counts as seeders and leechers exactly the seeding
/// and leeching peers that it holds (none where it has no list).
pub open spec fn counts_match(
    torrents: Map<HashKey, TorrentEntryItem>,
    peers: Map<HashKey, Map<HashKey, TorrentPeer>>,
) -> bool {
    forall|k: HashKey| #[trigger] torrents.contains_key(k) ==> {
        let list = model_peers(peers, k);
        &&& list.dom().finite()
        &&& torrents[k].seeders == seeders_of(list)
        &&& torrents[k].leechers == leechers_of(list)
    }
}

/// Whether the torrent `k` can take the move `c` with its counters in `i64`.
pub open spec fn move_fits(item: TorrentEntryItem, c: PeerChange) -> bool {
    &&& fits_i64(item.completed + one_if(c.completed_applied))
    &&& fits_i64(item.seeders + one_if(c.added_seeder))
    &&& fits_i64(item.seeders - one_if(c.removed_seeder))
    &&& fits_i64(item.leechers + one_if(c.added_leecher))
    &&& fits_i64(item.leechers - one_if(c.removed_leecher))
}

/// Recording the announce of `peer` under `pk` on the known torrent `k`,
/// with the move it makes, keeps the counts matching.
pub proof fn lemma_announce_keeps_counts(
    torrents: Map<HashKey, TorrentEntryItem>,
    peers: Map<HashKey, Map<HashKey, TorrentPeer>>,
    k: HashKey,
    pk: HashKey,
    peer: TorrentPeer,
    completed: bool,
)
    requires
        counts_match(torrents, peers),
        torrents.contains_key(k),
        move_fits(torrents[k], add_peer_change(peer_in(model_peers(peers, k), pk), peer, completed)),
    ensures
        ({
            let list = model_peers(peers, k);
            let c = add_peer_change(peer_in(list, pk), peer, completed);
            counts_match(
                torrents.insert(k, changed_item(torrents[k], c)),
                peers.insert(k, list.insert(pk, peer)),
            )
        }),
{
    let list = model_peers(peers, k);
    let c = add_peer_change(peer_in(list, pk), peer, completed);
    let t2 = torrents.insert(k, changed_item(torrents[k], c));
    let p2 = peers.insert(k, list.insert(pk, peer));
    assert(torrents.contains_key(k));
    lemma_map_sum_insert(list, |p: TorrentPeer| seed_one(p), pk, peer);
    lemma_map_sum_insert(list, |p: TorrentPeer| leech_one(p), pk, peer);
    assert forall|k2: HashKey| #[trigger] t2.contains_key(k2) implies {
        let l2 = model_peers(p2, k2);
        &&& l2.dom().finite()
        &&& t2[k2].seeders == seeders_of(l2)
        &&& t2[k2].leechers == leechers_of(l2)
    } by {
        if k2 != k {
            assert(torrents.contains_key(k2));
            assert(model_peers(p2, k2) == model_peers(peers, k2));
        } else {
            assert(model_peers(p2, k) == list.insert(pk, peer));
        }
    }
}

/// Taking the peer `pk` out of the known torrent `k`, one seeder or one
/// leecher fewer as it was, and dropping the list when it empties, keeps the
/// counts matching.
pub proof fn lemma_departure_keeps_counts(
    torrents: Map<HashKey, TorrentEntryItem>,
    peers: Map<HashKey, Map<HashKey, TorrentPeer>>,
    k: HashKey,
    pk: HashKey,
)
    requires
        counts_match(torrents, peers),
        torrents.contains_key(k),
    ensures
        ({
            let list = model_peers(peers, k);
            let present = list.contains_key(pk);
            let seed = present && list[pk].is_seed();
            let leech = present && !list[pk].is_seed();
            let list2 = list.remove(pk);
            let item = torrents[k];
            let item2 = TorrentEntryItem {
                completed: item.completed,
                seeders: (item.seeders - one_if(seed)) as i64,
                leechers: (item.leechers - one_if(leech)) as i64,
            };
            &&& fits_i64(item.seeders - one_if(seed))
            &&& fits_i64(item.leechers - one_if(leech))
            &&& counts_match(
                torrents.insert(k, item2),
                if list2.len() == 0 { peers.remove(k) } else { peers.insert(k, list2) },
            )
        }),
{
    let list = model_peers(peers, k);
    let present = list.contains_key(pk);
    let seed = present && list[pk].is_seed();
    let leech = present && !list[pk].is_seed();
    let list2 = list.remove(pk);
    let item = torrents[k];
    let item2 = TorrentEntryItem {
        completed: item.completed,
        seeders: (item.seeders - one_if(seed)) as i64,
        leechers: (item.leechers - one_if(leech)) as i64,
    };
    let p2 = if list2.len() == 0 { peers.remove(k) } else { peers.insert(k, list2) };
    let t2 = torrents.insert(k, item2);
    assert(torrents.contains_key(k));
    let fs = |p: TorrentPeer| seed_one(p);
    let fl = |p: TorrentPeer| leech_one(p);
    lemma_map_sum_nonneg(list2, fs);
    lemma_map_sum_nonneg(list2, fl);
    if present {
        lemma_map_sum_remove(list, fs, pk);
        lemma_map_sum_remove(list, fl, pk);
    } else {
        lemma_map_sum_basics(list, fs, pk);
        lemma_map_sum_basics(list, fl, pk);
    }
    assert(seeders_of(list) == one_if(seed) + seeders_of(list2));
    assert(leechers_of(list) == one_if(leech) + leechers_of(list2));
    if list2.len() == 0 {
        lemma_map_sum_basics(list2, fs, pk);
        lemma_map_sum_basics(list2, fl, pk);
        lemma_map_sum_basics(Map::<HashKey, TorrentPeer>::empty(), fs, pk);
        lemma_map_sum_basics(Map::<HashKey, TorrentPeer>::empty(), fl, pk);
    }
    assert forall|k2: HashKey| #[trigger] t2.contains_key(k2) implies {
        let l2 = model_peers(p2, k2);
        &&& l2.dom().finite()
        &&& t2[k2].seeders == seeders_of(l2)
        &&& t2[k2].leechers == leechers_of(l2)
    } by {
        if k2 != k {
            assert(torrents.contains_key(k2));
            assert(model_peers(p2, k2) == model_peers(peers, k2));
        }
    }
}

/// Forgetting a torrent, with or without its list, keeps the counts of the
/// others matching.
pub proof fn lemma_forget_keeps_counts(
    torrents: Map<HashKey, TorrentEntryItem>,
    peers: Map<HashKey, Map<HashKey, TorrentPeer>>,
    k: HashKey,
)
    requires
        counts_match(torrents, peers),
    ensures
        counts_match(torrents.remove(k), peers),
        counts_match(torrents.remove(k), peers.remove(k)),
{
    assert forall|k2: HashKey| #[trigger] torrents.remove(k).contains_key(k2) implies
        model_peers(peers.remove(k), k2) == model_peers(peers, k2) by {
        assert(torrents.contains_key(k2));
    }
}

/// An announce on a tracker whose counts match keeps them matching.
pub proof fn lemma_add_peer_keeps_counts(
    m: TrackerModel,
    k: HashKey,
    pk: HashKey,
    peer: TorrentPeer,
    completed: bool,
    persistent: bool,
)
    requires
        counts_match(m.torrents, m.peers),
        add_peer_fits(m, k, pk, peer, completed),
    ensures
        ({
            let m2 = model_add_peer(m, k, pk, peer, completed, persistent).0;
            counts_match(m2.torrents, m2.peers)
        }),
{
    if m.torrents.contains_key(k) {
        lemma_announce_keeps_counts(m.torrents, m.peers, k, pk, peer, completed);
    }
}

/// Taking a peer out of a tracker whose counts match keeps them matching.
pub proof fn lemma_remove_peer_keeps_counts(m: TrackerModel, k: HashKey, pk: HashKey, persistent: bool)
    requires
        counts_match(m.torrents, m.peers),
    ensures
        ({
            let m2 = model_remove_peer(m, k, pk, persistent).0;
            counts_match(m2.torrents, m2.peers)
        }),
{
    lemma_step_keeps_counts(m, k, pk, persistent);
}

/// One step of a removal keeps the counts matching.
proof fn lemma_step_keeps_counts(m: TrackerModel, k: HashKey, pk: HashKey, persistent: bool)
    requires
        counts_match(m.torrents, m.peers),
    ensures
        ({
            let m2 = remove_peer_step(m, k, pk, persistent).0;
            counts_match(m2.torrents, m2.peers)
        }),
{
    if m.torrents.contains_key(k) {
        let list = model_peers(m.peers, k);
        lemma_departure_keeps_counts(m.torrents, m.peers, k, pk);
        if !list.contains_key(pk) {
            assert(list.remove(pk) =~= list);
        }
        let item = m.torrents[k];
        let seed = list.contains_key(pk) && list[pk].is_seed();
        let leech = list.contains_key(pk) && !list[pk].is_seed();
        let item2 = TorrentEntryItem {
            completed: item.completed,
            seeders: (item.seeders - one_if(seed)) as i64,
            leechers: (item.leechers - one_if(leech)) as i64,
        };
        lemma_forget_keeps_counts(m.torrents.insert(k, item2), remove_peer_step(m, k, pk, persistent).0.peers, k);
    }
}

/// Taking out each pair of a list in turn, as cleaning out expired peers
/// does, keeps the counts matching.
pub proof fn lemma_remove_peers_keeps_counts(m: TrackerModel, pairs: Seq<(HashKey, HashKey)>, persistent: bool)
    requires
        counts_match(m.torrents, m.peers),
    ensures
        ({
            let m2 = model_remove_peers(m, pairs, persistent).0;
            counts_match(m2.torrents, m2.peers)
        }),
{
    lemma_steps_keep_counts(m, pairs, persistent);
}

proof fn lemma_steps_keep_counts(m: TrackerModel, pairs: Seq<(HashKey, HashKey)>, persistent: bool)
    requires
        counts_match(m.torrents, m.peers),
    ensures
        ({
            let m2 = remove_peers_steps(m, pairs, persistent).0;
            counts_match(m2.torrents, m2.peers)
        }),
    decreases pairs.len(),
{
    if pairs.len() > 0 {
        lemma_steps_keep_counts(m, pairs.drop_last(), persistent);
        let m1 = remove_peers_steps(m, pairs.drop_last(), persistent).0;
        lemma_step_keeps_counts(m1, pairs.last().0, pairs.last().1, persistent);
    }
}

} // verus!
