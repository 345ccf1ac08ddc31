use torrust_actix::common::{TorrentPeer, UserId};
use torrust_actix::net::{IpAddr, Ipv4Addr, Ipv6Addr, SocketAddr};
use torrust_actix::udp::server::swarm_of;
use torrust_actix::tracker::TorrentTracker;
use torrust_actix::tracker_objects::stats::{Stats, StatsEvent};
use torrust_actix::tracker_objects::torrents::TorrentEntryItem;
use torrust_actix::tracker_objects::users::UserEntryItem;
use torrust_actix::udp::types::{AnnounceEvent, InfoHash, NumberOfBytes, PeerId};
use std::collections::BTreeMap;

fn hash(b: u8) -> InfoHash {
    InfoHash([b; 20])
}

fn pid(b: u8) -> PeerId {
    PeerId([b; 20])
}

fn tracker() -> TorrentTracker {
    TorrentTracker::new(Stats::new(0, false, false, false))
}

fn peer(id: u8, left: i64, updated: u64) -> TorrentPeer {
    TorrentPeer {
        peer_id: pid(id),
        peer_addr: SocketAddr::new(IpAddr::V4(Ipv4Addr::new(10, 0, 0, id)), 6881),
        updated,
        uploaded: NumberOfBytes(0),
        downloaded: NumberOfBytes(0),
        left: NumberOfBytes(left),
        event: AnnounceEvent::Started,
    }
}

fn item(completed: i64, seeders: i64, leechers: i64) -> TorrentEntryItem {
    TorrentEntryItem { completed, seeders, leechers }
}

#[test]
fn add_then_get_torrent_gives_its_counters() {
    let mut t = tracker();
    t.add_torrent(hash(1), item(7, 2, 3), false);
    let e = t.get_torrent(hash(1)).expect("torrent was added");
    assert_eq!(e.completed, 7);
    assert_eq!(e.seeders, 2);
    assert_eq!(e.leechers, 3);
    assert!(e.peers.is_empty());
    assert_eq!(t.get_stats().torrents, 1);
    assert!(t.get_torrent(hash(2)).is_none());
}

#[test]
fn remove_then_get_torrent_finds_nothing() {
    let mut t = tracker();
    t.add_torrent(hash(1), item(0, 0, 0), true);
    t.remove_torrent(hash(1), true);
    assert!(t.get_torrent(hash(1)).is_none());
    assert_eq!(t.get_stats().torrents, 0);
}

#[test]
fn persistent_add_torrent_queues_its_completed_count() {
    let mut t = tracker();
    t.add_torrent(hash(4), item(9, 0, 0), true);
    let updates = t.get_update();
    assert_eq!(updates.len(), 1);
    assert_eq!(updates[0].0, hash(4));
    assert_eq!(updates[0].1, 9);
    assert_eq!(t.get_stats().torrents_updates, 1);
}

#[test]
fn announce_to_unknown_torrent_is_ignored() {
    let mut t = tracker();
    let e = t.add_peer(hash(1), pid(1), peer(1, 10, 0), false, false);
    assert!(e.peers.is_empty());
    assert!(t.get_torrent(hash(1)).is_none());
    assert_eq!(t.get_stats().peers, 0);
}

#[test]
fn announce_then_stop_restores_the_torrent() {
    let mut t = tracker();
    t.add_torrent(hash(1), item(0, 0, 0), true);
    let e = t.add_peer(hash(1), pid(5), peer(5, 100, 1), false, true);
    assert_eq!(e.leechers, 1);
    assert_eq!(e.seeders, 0);
    assert_eq!(e.peers.len(), 1);
    assert_eq!(t.get_stats().peers, 1);
    let e = t.remove_peer(hash(1), pid(5), true);
    assert!(e.peers.is_empty());
    assert_eq!(e.leechers, 0);
    let back = t.get_torrent(hash(1)).expect("persistent tracker keeps the torrent");
    assert_eq!(back.leechers, 0);
    assert_eq!(back.seeders, 0);
    assert!(back.peers.is_empty());
    assert_eq!(t.get_stats().peers, 0);
    assert_eq!(t.get_stats().seeds, 0);
}

#[test]
fn leecher_turning_seeder_with_completed_is_counted() {
    let mut t = tracker();
    t.add_torrent(hash(2), item(0, 0, 0), true);
    t.add_peer(hash(2), pid(1), peer(1, 50, 1), false, true);
    let e = t.add_peer(hash(2), pid(1), peer(1, 0, 2), true, true);
    assert_eq!(e.seeders, 1);
    assert_eq!(e.leechers, 0);
    assert_eq!(e.completed, 1);
    assert_eq!(t.get_stats().seeds, 1);
    assert_eq!(t.get_stats().peers, 0);
    assert_eq!(t.get_stats().completed, 1);
}

#[test]
fn clean_peers_removes_only_expired_peers() {
    let mut t = tracker();
    t.add_torrent(hash(1), item(0, 0, 0), true);
    t.add_peer(hash(1), pid(1), peer(1, 10, 1_000), false, true);
    t.add_peer(hash(1), pid(2), peer(2, 0, 9_000), false, true);
    t.add_peer(hash(1), pid(3), peer(3, 10, 20_000), false, true);
    let expired = t.expired_peers(5_000, 15_000);
    assert_eq!(expired, vec![(hash(1), pid(1)), (hash(1), pid(2))]);
    let removed = t.clean_peers(5_000, 15_000, true);
    assert_eq!(removed.len(), 2);
    let e = t.get_torrent(hash(1)).unwrap();
    assert_eq!(e.peers.len(), 1);
    assert_eq!(e.leechers, 1);
    assert_eq!(e.seeders, 0);
    assert_eq!(t.get_stats().peers, 1);
    assert_eq!(t.get_stats().seeds, 0);
    assert!(t.expired_peers(5_000, 15_000).is_empty());
}

#[test]
fn clean_peers_at_the_timeout_keeps_the_peer() {
    let mut t = tracker();
    t.add_torrent(hash(1), item(0, 0, 0), true);
    t.add_peer(hash(1), pid(1), peer(1, 10, 1_000), false, true);
    assert!(t.clean_peers(4_000, 5_000, true).is_empty());
    assert_eq!(t.get_torrent(hash(1)).unwrap().peers.len(), 1);
}

#[test]
fn whitelist_add_check_flag_remove() {
    let mut t = tracker();
    t.add_whitelist(hash(3), false);
    assert!(t.check_whitelist(hash(3)));
    assert!(!t.check_whitelist(hash(4)));
    assert_eq!(t.get_stats().whitelist, 1);
    t.remove_flag_whitelist(hash(3));
    assert!(t.check_whitelist(hash(3)));
    assert_eq!(t.get_whitelist(), vec![(hash(3), 0)]);
    t.remove_whitelist(hash(3));
    assert!(!t.check_whitelist(hash(3)));
    assert_eq!(t.get_stats().whitelist, 0);
}

#[test]
fn blacklist_add_then_clear() {
    let mut t = tracker();
    t.add_blacklist(hash(1), true);
    t.add_blacklist(hash(2), false);
    assert_eq!(t.get_blacklist(), vec![(hash(1), 1), (hash(2), 2)]);
    t.clear_blacklist();
    assert!(!t.check_blacklist(hash(1)));
    assert_eq!(t.get_stats().blacklist, 0);
}

#[test]
fn clean_keys_drops_expired_keys_only() {
    let mut t = tracker();
    t.add_key(hash(1), 100, 1_000);
    t.add_key(hash(2), 500, 1_000);
    t.add_key(hash(3), -1_000, 1_000);
    t.clean_keys(1_100_000);
    assert!(t.check_key(hash(1)));
    t.clean_keys(1_100_001);
    assert!(!t.check_key(hash(1)));
    assert!(t.check_key(hash(2)));
    assert!(t.check_key(hash(3)));
    assert_eq!(t.get_keys(), vec![(hash(2), 1_500), (hash(3), 0)]);
}

#[test]
fn transfer_moves_updates_into_the_shadow() {
    let mut t = tracker();
    t.add_update(hash(1), 3);
    t.add_update(hash(2), 4);
    t.add_shadow(hash(2), 1);
    t.add_shadow(hash(5), 8);
    t.transfer_updates_to_shadow();
    assert!(t.get_update().is_empty());
    assert_eq!(t.get_shadow(), vec![(hash(1), 3), (hash(2), 4), (hash(5), 8)]);
    assert_eq!(t.get_stats().torrents_updates, 0);
    assert_eq!(t.get_stats().torrents_shadow, 3);
}

#[test]
fn stats_update_then_undo() {
    let mut t = tracker();
    let before = t.get_stats();
    t.update_stats(StatsEvent::Udp4AnnouncesHandled, 5);
    assert_eq!(t.get_stats().udp4_announces_handled, 5);
    t.update_stats(StatsEvent::Udp4AnnouncesHandled, -5);
    assert_eq!(t.get_stats(), before);
}

fn user(active: &[(u8, u64)]) -> UserEntryItem {
    let mut torrents_active = BTreeMap::new();
    for (b, at) in active {
        let k = (u64::from_be_bytes([*b; 8]), u64::from_be_bytes([*b; 8]), u32::from_be_bytes([*b; 4]));
        torrents_active.insert(k, *at);
    }
    UserEntryItem {
        uuid: String::from("user"),
        key: UserId([9; 20]),
        uploaded: 0,
        downloaded: 0,
        completed: 0,
        updated: 0,
        active: 1,
        torrents_active,
    }
}

#[test]
fn clean_users_drops_timed_out_torrents() {
    let mut t = tracker();
    t.add_user(UserId([9; 20]), user(&[(1, 1_000), (2, 9_000), (3, 20_000)]));
    t.clean_users_active_torrents(5_000, 10_000);
    let u = t.get_user(UserId([9; 20])).expect("user stays");
    assert_eq!(u.torrents_active.len(), 2);
    assert_eq!(u.uuid, "user");
    assert_eq!(t.get_stats().users, 1);
}

#[test]
fn add_users_then_get_chunk() {
    let mut t = tracker();
    t.add_users(vec![(UserId([1; 20]), user(&[])), (UserId([2; 20]), user(&[]))], false);
    assert!(t.check_user_key(UserId([1; 20])));
    assert!(!t.check_user_key(UserId([3; 20])));
    assert_eq!(t.get_users_chunk(1, 10).len(), 1);
    t.remove_user(UserId([1; 20]));
    assert!(t.get_user(UserId([1; 20])).is_none());
    assert_eq!(t.get_stats().users, 1);
}

#[test]
fn raw_key_is_added_only_before_it_expires() {
    let mut t = tracker();
    t.add_key_raw(hash(1), 2_000, 1_999_000);
    t.add_key_raw(hash(2), 2_000, 2_000_000);
    t.add_key_raw(hash(3), 2_000, 2_000_001);
    assert!(t.check_key(hash(1)));
    assert!(t.check_key(hash(2)));
    assert!(!t.check_key(hash(3)));
    assert_eq!(t.get_stats().keys, 2);
    assert!(t.keys_representable_now());
}

#[test]
fn try_clean_peers_refuses_when_a_counter_would_overflow() {
    let mut t = tracker();
    t.add_torrent(hash(1), item(0, 0, 0), true);
    t.add_peer(hash(1), pid(1), peer(1, 10, 0), false, true);
    t.set_stats(StatsEvent::Peers, i64::MIN);
    assert!(!t.counters_above_now(1));
    assert!(t.try_clean_peers(10, 1_000, true).is_none());
    assert_eq!(t.get_torrent(hash(1)).unwrap().peers.len(), 1);
    t.set_stats(StatsEvent::Peers, 1);
    assert!(t.counters_above_now(1));
    assert_eq!(t.try_clean_peers(10, 1_000, true).map(|v| v.len()), Some(1));
    assert!(t.get_torrent(hash(1)).unwrap().peers.is_empty());
}

#[test]
fn fit_checks_follow_the_counters() {
    let mut t = tracker();
    t.add_torrent(hash(1), item(0, i64::MAX, 0), true);
    assert!(!t.add_peer_fits_now(hash(1), pid(1), peer(1, 0, 0), false));
    assert!(t.add_peer_fits_now(hash(1), pid(1), peer(1, 5, 0), false));
    assert!(t.add_peer_fits_now(hash(9), pid(1), peer(1, 0, 0), false));
    assert!(t.remove_peer_fits_now(hash(1), pid(1)));
    t.set_stats(StatsEvent::Seeds, i64::MIN);
    assert!(!t.remove_peer_fits_now(hash(1), pid(1)));
}

#[test]
fn swarm_sorts_peers_by_role_and_family() {
    let mut t = tracker();
    t.add_torrent(hash(1), item(0, 0, 0), false);
    t.add_peer(hash(1), pid(1), peer(1, 0, 0), false, false);
    t.add_peer(hash(1), pid(2), peer(2, 7, 0), false, false);
    let mut v6 = peer(3, 0, 0);
    v6.peer_addr = SocketAddr::new(IpAddr::V6(Ipv6Addr::new(0x2001, 0xdb8, 0, 0, 0, 0, 0, 3)), 51413);
    t.add_peer(hash(1), pid(3), v6, false, false);
    let e = t.get_torrent(hash(1)).unwrap();
    let s = swarm_of(&e);
    assert_eq!(s.seeds, vec![(pid(1), peer(1, 0, 0).peer_addr)]);
    assert_eq!(s.peers, vec![(pid(2), peer(2, 7, 0).peer_addr)]);
    assert_eq!(s.seeds_ipv6, vec![(pid(3), v6.peer_addr)]);
    assert!(s.peers_ipv6.is_empty());
    assert_eq!(s.total_seeds, 2);
    assert_eq!(s.total_peers, 1);
}

#[test]
fn raw_key_with_timeout_zero_is_permanent() {
    let mut t = tracker();
    t.add_key_raw(hash(7), 0, 1_700_000_000_000);
    assert!(t.check_key(hash(7)));
    assert_eq!(t.get_stats().keys, 1);
    t.clean_keys(i64::MAX);
    assert!(t.check_key(hash(7)));
    assert_eq!(t.get_keys(), vec![(hash(7), 0)]);
}

#[test]
fn seeders_and_leechers_follow_the_peers() {
    let mut t = tracker();
    t.add_torrent(hash(9), item(0, 0, 0), true);
    t.add_peer(hash(9), pid(1), peer(1, 0, 1), false, true);
    t.add_peer(hash(9), pid(2), peer(2, 40, 1), false, true);
    t.add_peer(hash(9), pid(3), peer(3, 40, 1), false, true);
    let e = t.get_torrent(hash(9)).unwrap();
    assert_eq!((e.seeders, e.leechers), (1, 2));
    t.add_peer(hash(9), pid(2), peer(2, 0, 2), true, true);
    let e = t.get_torrent(hash(9)).unwrap();
    assert_eq!((e.seeders, e.leechers, e.completed), (2, 1, 1));
    t.add_peer(hash(9), pid(1), peer(1, 5, 3), false, true);
    let e = t.get_torrent(hash(9)).unwrap();
    assert_eq!((e.seeders, e.leechers), (1, 2));
    t.remove_peer(hash(9), pid(3), true);
    t.remove_peer(hash(9), pid(7), true);
    let e = t.get_torrent(hash(9)).unwrap();
    assert_eq!((e.seeders, e.leechers), (1, 1));
    let seeds = e.peers.values().filter(|p| p.left.0 == 0).count() as i64;
    assert_eq!((e.seeders, e.leechers), (seeds, e.peers.len() as i64 - seeds));
}
