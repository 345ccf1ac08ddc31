use torrust_actix::net::{IpAddr, Ipv4Addr, SocketAddr};
use torrust_actix::tracker::TorrentTracker;
use torrust_actix::tracker_objects::stats::Stats;
use torrust_actix::tracker_objects::torrents::TorrentEntryItem;
use torrust_actix::udp::announce::{handle_packet, handle_request, handle_udp_announce, record_announce};
use torrust_actix::udp::request::{AnnounceRequest, ConnectRequest, Request, ScrapeRequest};
use torrust_actix::udp::response::Response;
use torrust_actix::udp::server::{get_connection_id, AnnounceConfig, ConnectionIdKey, UdpEvent};
use torrust_actix::udp::types::{
    AnnounceEvent, ConnectionId, InfoHash, NumberOfBytes, NumberOfPeers, PeerId, PeerKey, Port,
    ServerError, TransactionId,
};

const NOW: u64 = 1_700_000_000;

fn key() -> ConnectionIdKey {
    ConnectionIdKey::from_bytes(vec![7; 32])
}

fn addr(last: u8, port: u16) -> SocketAddr {
    SocketAddr::new(IpAddr::V4(Ipv4Addr::new(192, 0, 2, last)), port)
}

fn open_config() -> AnnounceConfig {
    AnnounceConfig {
        whitelist_enabled: false,
        blacklist_enabled: false,
        keys_enabled: false,
        users_enabled: false,
        request_interval: 1800,
    }
}

fn announce(from: &SocketAddr, peer: u8, left: i64, event: AnnounceEvent) -> AnnounceRequest {
    AnnounceRequest {
        connection_id: get_connection_id(&key(), from, NOW),
        transaction_id: TransactionId(42),
        info_hash: InfoHash([1; 20]),
        peer_id: PeerId([peer; 20]),
        bytes_downloaded: NumberOfBytes(0),
        bytes_uploaded: NumberOfBytes(0),
        bytes_left: NumberOfBytes(left),
        event,
        ip_address: None,
        key: PeerKey(0),
        peers_wanted: NumberOfPeers(-1),
        port: Port(from.port),
        path: String::new(),
    }
}

fn tracker_with_torrent() -> TorrentTracker {
    let mut t = TorrentTracker::new(Stats::new(0, false, false, false));
    t.add_torrent(InfoHash([1; 20]), TorrentEntryItem { completed: 0, seeders: 0, leechers: 0 }, false);
    t
}

#[test]
fn second_peer_is_told_of_the_first() {
    let mut t = tracker_with_torrent();
    let a = addr(1, 6881);
    let b = addr(2, 6882);
    let first = handle_udp_announce(&mut t, &open_config(), &key(), NOW, 1, &a, &announce(&a, 1, 0, AnnounceEvent::Started), false, false);
    match first {
        Ok((Response::AnnounceIpv4(r), UdpEvent::Udp4AnnouncesHandled)) => {
            assert!(r.peers.is_empty());
            assert_eq!(r.seeders, NumberOfPeers(1));
            assert_eq!(r.announce_interval.0, 1800);
        }
        other => panic!("unexpected {:?}", other.map(|p| p.0)),
    }
    let second = handle_udp_announce(&mut t, &open_config(), &key(), NOW, 2, &b, &announce(&b, 2, 100, AnnounceEvent::Started), false, false);
    match second {
        Ok((Response::AnnounceIpv4(r), _)) => {
            assert_eq!(r.peers.len(), 1);
            assert_eq!(r.peers[0].ip_address, Ipv4Addr::new(192, 0, 2, 1));
            assert_eq!(r.peers[0].port, Port(6881));
            assert_eq!(r.seeders, NumberOfPeers(1));
            assert_eq!(r.leechers, NumberOfPeers(1));
            assert_eq!(r.transaction_id, TransactionId(42));
        }
        other => panic!("unexpected {:?}", other.map(|p| p.0)),
    }
}

#[test]
fn announce_with_a_stale_connection_id_is_refused() {
    let mut t = tracker_with_torrent();
    let a = addr(1, 6881);
    let mut req = announce(&a, 1, 0, AnnounceEvent::Started);
    req.connection_id = ConnectionId(req.connection_id.0 ^ 1);
    let r = handle_udp_announce(&mut t, &open_config(), &key(), NOW, 1, &a, &req, false, false);
    assert_eq!(r.err(), Some(ServerError::InvalidConnectionId));
    assert!(t.get_torrent(InfoHash([1; 20])).unwrap().peers.is_empty());
}

#[test]
fn whitelist_refuses_unlisted_torrents() {
    let mut t = tracker_with_torrent();
    let a = addr(1, 6881);
    let mut config = open_config();
    config.whitelist_enabled = true;
    let r = handle_udp_announce(&mut t, &config, &key(), NOW, 1, &a, &announce(&a, 1, 0, AnnounceEvent::Started), false, false);
    assert_eq!(r.err(), Some(ServerError::TorrentNotWhitelisted));
    t.add_whitelist(InfoHash([1; 20]), false);
    let r = handle_udp_announce(&mut t, &config, &key(), NOW, 1, &a, &announce(&a, 1, 0, AnnounceEvent::Started), false, false);
    assert!(r.is_ok());
}

#[test]
fn keys_need_a_known_key_in_the_path() {
    let mut t = tracker_with_torrent();
    let a = addr(1, 6881);
    let mut config = open_config();
    config.keys_enabled = true;
    let mut req = announce(&a, 1, 0, AnnounceEvent::Started);
    req.path = String::from("/announce/0101010101010101010101010101010101010101");
    let r = handle_udp_announce(&mut t, &config, &key(), NOW, 1, &a, &req, false, false);
    assert_eq!(r.err(), Some(ServerError::UnknownKey));
    t.add_key(InfoHash([1; 20]), 3600, NOW as i64);
    let r = handle_udp_announce(&mut t, &config, &key(), NOW, 1, &a, &req, false, false);
    assert!(r.is_ok());
}

#[test]
fn stop_takes_the_peer_out() {
    let mut t = tracker_with_torrent();
    let a = addr(1, 6881);
    record_announce(&mut t, &announce(&a, 1, 5, AnnounceEvent::Started), &a, 1, true).unwrap();
    assert_eq!(t.get_torrent(InfoHash([1; 20])).unwrap().leechers, 1);
    let e = record_announce(&mut t, &announce(&a, 1, 5, AnnounceEvent::Stopped), &a, 2, true).unwrap();
    assert!(e.peers.is_empty());
    assert_eq!(e.leechers, 0);
}

#[test]
fn requests_are_dispatched_to_their_handlers() {
    let mut t = tracker_with_torrent();
    let a = addr(1, 6881);
    let config = open_config();
    let connect = Request::Connect(ConnectRequest { transaction_id: TransactionId(5) });
    match handle_request(&mut t, &config, &key(), NOW, 1, &a, &connect, false, false) {
        Ok((Response::Connect(c), UdpEvent::Udp4ConnectionsHandled)) => {
            assert_eq!(c.connection_id, get_connection_id(&key(), &a, NOW));
            assert_eq!(c.transaction_id, TransactionId(5));
        }
        other => panic!("unexpected {:?}", other.map(|p| p.0)),
    }
    let scrape = Request::Scrape(ScrapeRequest {
        connection_id: get_connection_id(&key(), &a, NOW),
        transaction_id: TransactionId(6),
        info_hashes: vec![InfoHash([1; 20]), InfoHash([2; 20])],
    });
    match handle_request(&mut t, &config, &key(), NOW, 1, &a, &scrape, false, false) {
        Ok((Response::Scrape(s), UdpEvent::Udp4ScrapesHandled)) => assert_eq!(s.torrent_stats.len(), 2),
        other => panic!("unexpected {:?}", other.map(|p| p.0)),
    }
    let announce = Request::Announce(announce(&a, 1, 0, AnnounceEvent::Completed));
    assert!(handle_request(&mut t, &config, &key(), NOW, 1, &a, &announce, false, false).is_ok());
    assert_eq!(t.get_stats().completed, 1);
}

#[test]
fn blacklisted_torrent_is_refused() {
    let mut t = tracker_with_torrent();
    let a = addr(1, 6881);
    let mut config = open_config();
    config.blacklist_enabled = true;
    t.add_blacklist(InfoHash([1; 20]), false);
    let r = handle_udp_announce(&mut t, &config, &key(), NOW, 1, &a, &announce(&a, 1, 0, AnnounceEvent::Started), false, false);
    assert_eq!(r.err(), Some(ServerError::TorrentBlacklisted));
}

#[test]
fn users_need_a_known_user_key() {
    use_users_case();
}

fn use_users_case() {
    let mut t = tracker_with_torrent();
    let a = addr(1, 6881);
    let mut config = open_config();
    config.users_enabled = true;
    let mut req = announce(&a, 1, 0, AnnounceEvent::Started);
    req.path = format!("/announce/{}/{}", "00".repeat(20), "ab".repeat(20));
    let r = handle_udp_announce(&mut t, &config, &key(), NOW, 1, &a, &req, false, false);
    assert_eq!(r.err(), Some(ServerError::PeerKeyNotValid));
    t.add_user(
        torrust_actix::common::UserId([0xab; 20]),
        torrust_actix::tracker_objects::users::UserEntryItem {
            uuid: String::from("u"),
            key: torrust_actix::common::UserId([0xab; 20]),
            uploaded: 0,
            downloaded: 0,
            completed: 0,
            updated: 0,
            active: 1,
            torrents_active: std::collections::BTreeMap::new(),
        },
    );
    let r = handle_udp_announce(&mut t, &config, &key(), NOW, 1, &a, &req, false, false);
    assert!(r.is_ok());
}

#[test]
fn announce_that_would_overflow_a_counter_is_refused() {
    let mut t = TorrentTracker::new(Stats::new(0, false, false, false));
    t.add_torrent(InfoHash([1; 20]), TorrentEntryItem { completed: 0, seeders: i64::MAX, leechers: 0 }, false);
    let a = addr(1, 6881);
    let r = handle_udp_announce(&mut t, &open_config(), &key(), NOW, 1, &a, &announce(&a, 1, 0, AnnounceEvent::Started), false, false);
    assert_eq!(r.err(), Some(ServerError::InternalServerError));
    assert!(t.get_torrent(InfoHash([1; 20])).unwrap().peers.is_empty());
}

#[test]
fn payload_address_is_used_only_when_allowed() {
    let mut t = tracker_with_torrent();
    let a = addr(1, 6881);
    let mut req = announce(&a, 1, 0, AnnounceEvent::Started);
    req.ip_address = Some(Ipv4Addr::new(198, 51, 100, 4));
    handle_udp_announce(&mut t, &open_config(), &key(), NOW, 1, &a, &req, true, false).unwrap();
    let e = t.get_torrent(InfoHash([1; 20])).unwrap();
    let p = e.peers.values().next().unwrap();
    assert_eq!(p.peer_addr, SocketAddr::new(IpAddr::V4(Ipv4Addr::new(198, 51, 100, 4)), 6881));
    let mut t = tracker_with_torrent();
    handle_udp_announce(&mut t, &open_config(), &key(), NOW, 1, &a, &req, false, false).unwrap();
    let e = t.get_torrent(InfoHash([1; 20])).unwrap();
    assert_eq!(e.peers.values().next().unwrap().peer_addr, a);
}

#[test]
fn datagrams_are_answered_end_to_end() {
    let mut t = tracker_with_torrent();
    let a = addr(1, 6881);
    let config = open_config();
    let (r, e) = handle_packet(&mut t, &config, &key(), NOW, 1, &a, &[0u8; 5], false, false);
    assert_eq!(e, UdpEvent::Udp4BadRequest);
    assert!(matches!(r, Response::Error(ref err) if err.transaction_id == TransactionId(0)));
    assert_eq!(t.get_stats().udp4_bad_request, 1);
    assert_eq!(t.get_stats().udp4_invalid_request, 0);
    let mut req = announce(&a, 1, 0, AnnounceEvent::Started);
    let mut bytes = Vec::new();
    Request::Announce(req.clone()).write(&mut bytes).unwrap();
    let (r, e) = handle_packet(&mut t, &config, &key(), NOW, 1, &a, &bytes, false, false);
    assert_eq!(e, UdpEvent::Udp4AnnouncesHandled);
    assert!(matches!(r, Response::AnnounceIpv4(ref ar) if ar.transaction_id == TransactionId(42)));
    assert_eq!(t.get_torrent(InfoHash([1; 20])).unwrap().seeders, 1);
    assert_eq!(t.get_stats().udp4_announces_handled, 1);
    req.connection_id = ConnectionId(0);
    let mut bytes = Vec::new();
    Request::Announce(req).write(&mut bytes).unwrap();
    let (r, e) = handle_packet(&mut t, &config, &key(), NOW, 1, &a, &bytes, false, false);
    assert_eq!(e, UdpEvent::Udp4InvalidRequest);
    assert_eq!(t.get_stats().udp4_invalid_request, 1);
    assert_eq!(t.get_stats().udp4_bad_request, 1);
    match r {
        Response::Error(err) => {
            assert_eq!(err.transaction_id, TransactionId(42));
            assert_eq!(err.message, "bad request");
        }
        other => panic!("unexpected {:?}", other),
    }
}
