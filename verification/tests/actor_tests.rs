use torrust_actix::common::TorrentPeer;
use torrust_actix::net::{IpAddr, Ipv4Addr, SocketAddr};
use torrust_actix::tracker_channels::stats::{StatsAction, StatsRequest, StatsState};
use torrust_actix::tracker_channels::store::{
    handle_stop_only, NumberAction, NumberData, NumberRequest, NumberStore, StopRequest,
};
use torrust_actix::tracker_channels::torrents::{TorrentsAction, TorrentsData, TorrentsRequest, TorrentsState};
use torrust_actix::tracker_channels::torrents_peers::{
    TorrentsPeersAction, TorrentsPeersData, TorrentsPeersRequest, TorrentsPeersState,
};
use torrust_actix::tracker_channels::updates_shadow::{
    UpdatesOrShadow, UpdatesShadowData, UpdatesShadowRequest, UpdatesShadowState,
};
use torrust_actix::tracker_channels::whitelist_blacklist_keys::{WbkAction, WbkData, WbkRequest, WbkState};
use torrust_actix::tracker_objects::stats::{Stats, StatsEvent};
use torrust_actix::tracker_objects::torrents::TorrentEntryItem;
use torrust_actix::tracker_objects::whitelist::ListKind;
use torrust_actix::udp::types::{AnnounceEvent, InfoHash, NumberOfBytes, PeerId};

fn h(b: u8) -> InfoHash {
    InfoHash([b; 20])
}

fn peer(id: u8, left: i64) -> TorrentPeer {
    TorrentPeer {
        peer_id: PeerId([id; 20]),
        peer_addr: SocketAddr::new(IpAddr::V4(Ipv4Addr::new(10, 0, 0, id)), 6881),
        updated: 0,
        uploaded: NumberOfBytes(0),
        downloaded: NumberOfBytes(0),
        left: NumberOfBytes(left),
        event: AnnounceEvent::Started,
    }
}

#[test]
fn stats_actor_sets_updates_and_stops() {
    let mut s = StatsState { stats: Stats::new(0, true, false, false) };
    let r = s.handle(StatsRequest::Update { event: StatsEvent::Seeds, value: 3 });
    assert_eq!(r.action, StatsAction::Update);
    assert_eq!(r.data.unwrap().seeds, 3);
    let r = s.handle(StatsRequest::SetCounter { event: StatsEvent::Seeds, value: 1 });
    assert_eq!(r.data.unwrap().seeds, 1);
    let r = s.handle(StatsRequest::Unknown);
    assert_eq!(r.action, StatsAction::Error);
    assert!(!r.stop);
    assert!(s.handle(StatsRequest::Shutdown).stop);
}

#[test]
fn list_actor_keeps_three_lists_apart() {
    let mut s = WbkState::new();
    let r = s.handle(WbkRequest::AddSingle { list: ListKind::Whitelist, info_hash: h(1), value: 2 });
    assert_eq!(r.whitelist_count, 0);
    let r = s.handle(WbkRequest::AddSingle { list: ListKind::Whitelist, info_hash: h(9), value: 1 });
    assert_eq!(r.whitelist_count, 1);
    assert_eq!(r.blacklist_count, 0);
    s.handle(WbkRequest::AddMulti { list: ListKind::Keys, entries: vec![(h(2), 100), (h(3), 200)] });
    let r = s.handle(WbkRequest::GetSingle { list: ListKind::Keys, info_hash: h(3) });
    assert!(matches!(r.data, WbkData::Value(Some(200))));
    let r = s.handle(WbkRequest::GetSingle { list: ListKind::Blacklist, info_hash: h(3) });
    assert!(matches!(r.data, WbkData::Value(None)));
    let r = s.handle(WbkRequest::RemoveSingle { list: ListKind::Keys, info_hash: h(2) });
    assert!(matches!(r.data, WbkData::Removed(true)));
    assert_eq!(r.keys_count, 0);
    let r = s.handle(WbkRequest::Clear { list: ListKind::Whitelist });
    assert_eq!(r.action, WbkAction::Clear(ListKind::Whitelist));
    assert_eq!(r.whitelist_count, 0);
    assert!(s.handle(WbkRequest::Shutdown).stop);
}

#[test]
fn torrents_actor_adds_gets_and_deletes() {
    let mut s = TorrentsState::new();
    s.handle(TorrentsRequest::AddSingle { info_hash: h(1), entry: TorrentEntryItem { completed: 4, seeders: 1, leechers: 2 } });
    let r = s.handle(TorrentsRequest::GetSingle { info_hash: h(1) });
    assert_eq!(r.action, TorrentsAction::GetSingle);
    match r.data {
        TorrentsData::Item(Some(i)) => assert_eq!(i.completed, 4),
        _ => panic!("torrent missing"),
    }
    let r = s.handle(TorrentsRequest::DeleteMulti { hashes: vec![h(1), h(2)] });
    assert!(matches!(r.data, TorrentsData::RemovedCount(1)));
    assert_eq!(r.torrent_count, 0);
}

#[test]
fn torrents_peers_actor_counts_moves() {
    let mut s = TorrentsPeersState::new();
    s.handle(TorrentsPeersRequest::TorrentAdd {
        info_hash: h(1),
        torrent_entry_item: TorrentEntryItem { completed: 0, seeders: 0, leechers: 0 },
    });
    assert!(s.add_fits_now(h(1), PeerId([5; 20]), peer(5, 0), true));
    assert!(s.peer_total_below_max());
    let r = s
        .handle(TorrentsPeersRequest::PeerAdd { info_hash: h(1), peer_id: PeerId([5; 20]), torrent_peer: peer(5, 0), completed: true })
        .unwrap();
    assert_eq!(r.action, TorrentsPeersAction::PeerAdd);
    match r.data {
        TorrentsPeersData::PeerAdded { added_seeder, completed_applied, torrent_entry, .. } => {
            assert!(added_seeder);
            assert!(completed_applied);
            assert_eq!(torrent_entry.seeders, 1);
            assert_eq!(torrent_entry.completed, 1);
        }
        _ => panic!("no peer added"),
    }
    assert_eq!(r.peer_count, Some(1));
    assert!(s.remove_fits_now(h(1), PeerId([5; 20])));
    let r = s.handle(TorrentsPeersRequest::PeerRemove { info_hash: h(1), peer_id: PeerId([5; 20]) }).unwrap();
    match r.data {
        TorrentsPeersData::PeerRemoved { removed_seeder, torrent_entry, .. } => {
            assert!(removed_seeder);
            assert_eq!(torrent_entry.seeders, 0);
        }
        _ => panic!("no peer removed"),
    }
    assert!(s.handle(TorrentsPeersRequest::PeerGet).is_none());
}

#[test]
fn updates_shadow_actor_moves_updates() {
    let mut s = UpdatesShadowState::new();
    s.handle(UpdatesShadowRequest::AddMulti { which: UpdatesOrShadow::Updates, entries: vec![(h(1), 5), (h(2), 6)] });
    let r = s.handle(UpdatesShadowRequest::UpdatesGetAll { clear: true });
    match r.data {
        UpdatesShadowData::All(v) => assert_eq!(v, vec![(h(1), 5), (h(2), 6)]),
        _ => panic!("no updates"),
    }
    assert_eq!(r.updates_count, 0);
    let r = s.handle(UpdatesShadowRequest::GetSingle { which: UpdatesOrShadow::Updates, info_hash: h(1) });
    assert!(matches!(r.data, UpdatesShadowData::Value(None)));
}

#[test]
fn number_store_and_stop_only_actors() {
    let mut s = NumberStore::new();
    s.handle(NumberRequest::AddSingle { info_hash: h(1), value: 9 });
    let r = s.handle(NumberRequest::GetMulti { hashes: vec![h(1), h(2)] });
    assert_eq!(r.action, NumberAction::GetMulti);
    match r.data {
        NumberData::Values(v) => assert_eq!(v, vec![(h(1), Some(9)), (h(2), None)]),
        _ => panic!("no values"),
    }
    assert_eq!(r.count, Some(1));
    let r = handle_stop_only(StopRequest::Unknown);
    assert!(r.unknown_action);
    assert!(!r.stop);
    assert!(handle_stop_only(StopRequest::Shutdown).stop);
}
