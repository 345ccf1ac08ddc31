//! The tracker's in-memory state: torrents and their peers, the white-,
//! black- and key lists, pending updates, users and statistics.

pub mod keyed;
pub mod types;


use vstd::prelude::*;
use std::collections::BTreeMap;
use crate::common::TorrentPeer;
use crate::tracker::keyed::HashKey;
use crate::tracker_objects::stats::Stats;
use crate::tracker_objects::torrents::TorrentEntryItem;
use crate::tracker_objects::stats::{StatsEvent, counter, with_counter};
use crate::tracker_objects::users::{UserEntryItem, UserModel};

verus! {

/// Everything the tracker holds in memory. Maps are keyed by the key of a
/// 20-byte hash (`keyed::key_of`).
pub struct TorrentTracker {
    /// The counters of each torrent.
    pub torrents: BTreeMap<HashKey, TorrentEntryItem>,
    /// The peers of each torrent that has any, by peer id.
    pub peers: BTreeMap<HashKey, BTreeMap<HashKey, TorrentPeer>>,
    /// Completed counts waiting to be written out, by torrent.
    pub torrents_updates: BTreeMap<HashKey, i64>,
    /// Completed counts being written out, by torrent.
    pub torrents_shadow: BTreeMap<HashKey, i64>,
    /// Whitelisted torrents and their flag (1 stored, 2 new, 0 to delete).
    pub whitelist: BTreeMap<HashKey, i64>,
    /// Blacklisted torrents and their flag.
    pub blacklist: BTreeMap<HashKey, i64>,
    /// Access keys and the time each expires (0: never).
    pub keys: BTreeMap<HashKey, i64>,
    /// Users by key.
    pub users: BTreeMap<HashKey, UserEntryItem>,
    /// Users being written out, by key.
    pub users_shadow: BTreeMap<HashKey, UserEntryItem>,
    /// The counters.
    pub stats: Stats,
}

/// The tracker as plain values.
#[verifier::ext_equal]
pub struct TrackerModel {
    pub torrents: Map<HashKey, TorrentEntryItem>,
    pub peers: Map<HashKey, Map<HashKey, TorrentPeer>>,
    pub updates: Map<HashKey, i64>,
    pub shadow: Map<HashKey, i64>,
    pub whitelist: Map<HashKey, i64>,
    pub blacklist: Map<HashKey, i64>,
    pub keys: Map<HashKey, i64>,
    pub users: Map<HashKey, UserModel>,
    pub users_shadow: Map<HashKey, UserModel>,
    pub stats: Stats,
}

/// The users of a map, as plain values.
pub open spec fn user_models(m: Map<HashKey, UserEntryItem>) -> Map<HashKey, UserModel> {
    Map::new(|k: HashKey| m.contains_key(k), |k: HashKey| m[k]@)
}

/// The users of a map as plain values have the same keys.
pub proof fn lemma_user_models_dom(m: Map<HashKey, UserEntryItem>)
    ensures
        user_models(m).dom() == m.dom(),
        m.dom().finite() ==> user_models(m).len() == m.len(),
{
    assert(user_models(m).dom() =~= m.dom());
}

impl View for TorrentTracker {
    type V = TrackerModel;

    open spec fn view(&self) -> TrackerModel {
        TrackerModel {
            torrents: self.torrents@,
            peers: peer_lists(self.peers@),
            updates: self.torrents_updates@,
            shadow: self.torrents_shadow@,
            whitelist: self.whitelist@,
            blacklist: self.blacklist@,
            keys: self.keys@,
            users: user_models(self.users@),
            users_shadow: user_models(self.users_shadow@),
            stats: self.stats,
        }
    }
}

/// `s` with `d` added to the counter of `e`.
pub open spec fn bump(s: Stats, e: StatsEvent, d: int) -> Stats {
    with_counter(s, e, (counter(s, e) + d) as i64)
}

/// Whether adding `d` to the counter of `e` stays within `i64`.
pub open spec fn bump_fits(s: Stats, e: StatsEvent, d: int) -> bool {
    fits_i64(counter(s, e) + d)
}

/// The peers of each torrent, as plain maps.
pub open spec fn peer_lists(m: Map<HashKey, BTreeMap<HashKey, TorrentPeer>>) -> Map<
    HashKey,
    Map<HashKey, TorrentPeer>,
> {
    Map::new(|k: HashKey| m.contains_key(k), |k: HashKey| m[k]@)
}

/// The peers that the tracker holds for the torrent `k`: none if it holds no
/// list.
pub open spec fn peers_of(m: Map<HashKey, BTreeMap<HashKey, TorrentPeer>>, k: HashKey) -> Map<
    HashKey,
    TorrentPeer,
> {
    if m.contains_key(k) {
        m[k]@
    } else {
        Map::empty()
    }
}

/// Whether `x` fits in an `i64`.
pub open spec fn fits_i64(x: int) -> bool {
    i64::MIN <= x <= i64::MAX
}

impl TorrentTracker {
    /// An empty tracker with the given statistics.
    pub fn new(stats: Stats) -> (r: TorrentTracker)
        ensures
            r@ == (TrackerModel {
                torrents: Map::empty(),
                peers: Map::empty(),
                updates: Map::empty(),
                shadow: Map::empty(),
                whitelist: Map::empty(),
                blacklist: Map::empty(),
                keys: Map::empty(),
                users: Map::empty(),
                users_shadow: Map::empty(),
                stats,
            }),
    {
        TorrentTracker {
            torrents: BTreeMap::new(),
            peers: BTreeMap::new(),
            torrents_updates: BTreeMap::new(),
            torrents_shadow: BTreeMap::new(),
            whitelist: BTreeMap::new(),
            blacklist: BTreeMap::new(),
            keys: BTreeMap::new(),
            users: BTreeMap::new(),
            users_shadow: BTreeMap::new(),
            stats,
        }
    }
}

} // verus!
