use torrust_actix::codec::IoError;
use torrust_actix::net::{IpAddr, Ipv4Addr, Ipv6Addr, SocketAddr};
use torrust_actix::tracker::types::torrents_updates::{TorrentUpdateData, TorrentUpdateQueue, UpdatesAction};
use torrust_actix::udp::parse_pool::{extract_spp_info, ip_eq, ip_listed, payload_ip_allowed};
use torrust_actix::udp::request::{ParseFailure, Request, RequestParseError};
use torrust_actix::udp::response::{ConnectResponse, ErrorResponse, Response, ScrapeResponse};
use torrust_actix::udp::types::{NumberOfDownloads, NumberOfPeers, TorrentScrapeStatistics};
use torrust_actix::udp::server::{
    bad_packet_reply, connection_id_valid, derive_connection_id, get_connection_id, key_from_path, plan_packet,
    refused_request_reply, ConnectionIdKey, PacketPlan, UdpEvent,
};
use torrust_actix::udp::types::{ConnectionId, InfoHash, ServerError, TransactionId};
use torrust_actix::udp_common::{convert_bytes_to_int, convert_int_to_bytes, current_time, parse_plain_request};

fn v4(a: u8, b: u8, c: u8, d: u8, port: u16) -> SocketAddr {
    SocketAddr::new(IpAddr::V4(Ipv4Addr::new(a, b, c, d)), port)
}

fn test_key() -> ConnectionIdKey {
    ConnectionIdKey::from_bytes((0u8..32).collect())
}

#[test]
fn connection_id_is_the_keyed_tag() {
    let key = test_key();
    let id = get_connection_id(&key, &v4(127, 0, 0, 1, 6881), 120_000);
    assert_eq!(id, ConnectionId(-1639888848921493594));
    let other_port = derive_connection_id(&key, &v4(127, 0, 0, 1, 6882), 1_000);
    assert_eq!(other_port, ConnectionId(-6730637926473302779));
}

#[test]
fn issued_connection_id_is_accepted_for_two_windows() {
    let key = test_key();
    let remote = v4(10, 1, 2, 3, 51413);
    let id = get_connection_id(&key, &remote, 1_000_000);
    assert!(connection_id_valid(&key, &remote, id, 1_000_000));
    assert!(connection_id_valid(&key, &remote, id, 1_000_000 + 120));
    assert!(!connection_id_valid(&key, &remote, id, 1_000_000 + 360));
    assert!(!connection_id_valid(&key, &v4(10, 1, 2, 4, 51413), id, 1_000_000));
}

#[test]
fn generated_keys_differ() {
    let a = ConnectionIdKey::generate().expect("system generator");
    let b = ConnectionIdKey::generate().expect("system generator");
    let remote = v4(1, 2, 3, 4, 5);
    assert_ne!(get_connection_id(&a, &remote, 0), get_connection_id(&b, &remote, 0));
}

#[test]
fn key_is_read_from_hex_in_the_path() {
    let mut path = b"/announce/".to_vec();
    path.extend_from_slice(b"00112233445566778899aabbccddeeff00112233");
    let k = key_from_path(&path, 10).expect("forty hex digits");
    assert_eq!(k[0], 0x00);
    assert_eq!(k[1], 0x11);
    assert_eq!(k[10], 0xaa);
    assert_eq!(k[19], 0x33);
    assert!(key_from_path(&path, 11).is_none());
    let mut bad = path.clone();
    bad[12] = b'g';
    assert!(key_from_path(&bad, 10).is_none());
}

#[test]
fn connect_request_is_parsed() {
    let mut b = 0x41727101980i64.to_be_bytes().to_vec();
    b.extend_from_slice(&0i32.to_be_bytes());
    b.extend_from_slice(&77i32.to_be_bytes());
    match Request::from_bytes(&b, 74) {
        Ok(Request::Connect(c)) => assert_eq!(c.transaction_id, TransactionId(77)),
        other => panic!("unexpected {:?}", other),
    }
}

#[test]
fn connect_without_protocol_id_is_refused() {
    let mut b = 5i64.to_be_bytes().to_vec();
    b.extend_from_slice(&0i32.to_be_bytes());
    b.extend_from_slice(&77i32.to_be_bytes());
    assert_eq!(
        Request::from_bytes(&b, 74),
        Err(RequestParseError::Unsendable { err: ParseFailure::ProtocolIdentifierMissing })
    );
}

#[test]
fn unknown_action_is_answered() {
    let mut b = 5i64.to_be_bytes().to_vec();
    b.extend_from_slice(&9i32.to_be_bytes());
    b.extend_from_slice(&77i32.to_be_bytes());
    match Request::from_bytes(&b, 74) {
        Err(RequestParseError::Sendable { err, transaction_id, connection_id }) => {
            assert_eq!(err, ParseFailure::InvalidAction);
            assert_eq!(err.message(), "Invalid action");
            assert_eq!(transaction_id, TransactionId(77));
            assert_eq!(connection_id, ConnectionId(5));
        }
        other => panic!("unexpected {:?}", other),
    }
}

#[test]
fn scrape_without_hashes_is_refused() {
    let mut b = 5i64.to_be_bytes().to_vec();
    b.extend_from_slice(&2i32.to_be_bytes());
    b.extend_from_slice(&1i32.to_be_bytes());
    match Request::from_bytes(&b, 74) {
        Err(RequestParseError::Sendable { err, .. }) => assert_eq!(err, ParseFailure::FullScrapesNotAllowed),
        other => panic!("unexpected {:?}", other),
    }
    b.extend_from_slice(&[3u8; 45]);
    match Request::from_bytes(&b, 74) {
        Ok(Request::Scrape(s)) => assert_eq!(s.info_hashes, vec![InfoHash([3; 20]), InfoHash([3; 20])]),
        other => panic!("unexpected {:?}", other),
    }
}

#[test]
fn short_announce_is_an_eof() {
    let mut b = 5i64.to_be_bytes().to_vec();
    b.extend_from_slice(&1i32.to_be_bytes());
    b.extend_from_slice(&1i32.to_be_bytes());
    match Request::from_bytes(&b, 74) {
        Err(RequestParseError::Sendable { err, .. }) => assert_eq!(err, ParseFailure::Io(IoError::UnexpectedEof)),
        other => panic!("unexpected {:?}", other),
    }
}

#[test]
fn short_packet_cannot_be_answered() {
    match Request::from_bytes(&[0u8; 3], 74) {
        Err(RequestParseError::Unsendable { .. }) => {}
        other => panic!("unexpected {:?}", other),
    }
}

fn announce_bytes(path: &[u8]) -> Vec<u8> {
    let mut b = 99i64.to_be_bytes().to_vec();
    b.extend_from_slice(&1i32.to_be_bytes());
    b.extend_from_slice(&5i32.to_be_bytes());
    b.extend_from_slice(&[7u8; 20]);
    b.extend_from_slice(&[8u8; 20]);
    b.extend_from_slice(&10i64.to_be_bytes());
    b.extend_from_slice(&20i64.to_be_bytes());
    b.extend_from_slice(&30i64.to_be_bytes());
    b.extend_from_slice(&2i32.to_be_bytes());
    b.extend_from_slice(&[0u8; 4]);
    b.extend_from_slice(&3u32.to_be_bytes());
    b.extend_from_slice(&(-1i32).to_be_bytes());
    b.extend_from_slice(&6881u16.to_be_bytes());
    b.push(2);
    b.push(path.len() as u8);
    b.extend_from_slice(path);
    b
}

#[test]
fn announce_carries_its_path() {
    match Request::from_bytes(&announce_bytes(b"/announce?x=1"), 74) {
        Ok(Request::Announce(a)) => {
            assert_eq!(a.path, "/announce?x=1");
            assert_eq!(a.info_hash, InfoHash([7; 20]));
            assert_eq!(a.port.0, 6881);
            assert!(a.ip_address.is_none());
        }
        other => panic!("unexpected {:?}", other),
    }
    match Request::from_bytes(&announce_bytes(&[0xff, 0xfe]), 74) {
        Ok(Request::Announce(a)) => assert_eq!(a.path, ""),
        other => panic!("unexpected {:?}", other),
    }
}

#[test]
fn error_response_text_is_decoded_lossily() {
    let mut b = 3i32.to_be_bytes().to_vec();
    b.extend_from_slice(&9i32.to_be_bytes());
    b.extend_from_slice(b"bad ");
    b.push(0xff);
    match Response::from_bytes(&b, true) {
        Ok(Response::Error(e)) => {
            assert_eq!(e.transaction_id, TransactionId(9));
            assert_eq!(e.message, "bad \u{FFFD}");
        }
        other => panic!("unexpected {:?}", other),
    }
}

#[test]
fn response_written_then_read_back() {
    let r = Response::Connect(ConnectResponse {
        connection_id: ConnectionId(-5),
        transaction_id: TransactionId(12),
    });
    let bytes = r.write_to_vec().unwrap();
    assert_eq!(bytes.len(), 16);
    assert_eq!(Response::from_bytes(&bytes, true).unwrap(), r);
    let e = Response::Error(ErrorResponse {
        transaction_id: TransactionId(1),
        message: String::from(ServerError::UnknownKey.message()),
    });
    let bytes = e.write_to_vec().unwrap();
    assert_eq!(Response::from_bytes(&bytes, false).unwrap(), e);
}

#[test]
fn truncated_response_is_an_eof() {
    assert_eq!(Response::from_bytes(&[0, 0, 0], true), Err(IoError::UnexpectedEof));
}

#[test]
fn server_error_messages() {
    assert_eq!(ServerError::TorrentNotWhitelisted.message(), "torrent not on whitelist");
    assert_eq!(ServerError::TorrentBlacklisted.message(), "torrent blacklist");
    assert_eq!(ServerError::PeerKeyNotValid.message(), "invalid authentication key");
}

#[test]
fn int_bytes_are_the_shortest_big_endian_form() {
    assert_eq!(convert_int_to_bytes(0), vec![0]);
    assert_eq!(convert_int_to_bytes(0x0102), vec![1, 2]);
    assert_eq!(convert_int_to_bytes(u64::MAX), vec![0xff; 8]);
    assert_eq!(convert_bytes_to_int(&vec![1, 2]), 0x0102);
    for n in [1u64, 255, 256, 0xdead_beef, 1 << 56, u64::MAX] {
        assert_eq!(convert_bytes_to_int(&convert_int_to_bytes(n)), n);
    }
}

#[test]
fn clock_reads_after_the_epoch() {
    assert!(current_time() > 1_600_000_000);
}

fn spp_datagram(payload: &[u8]) -> Vec<u8> {
    let mut d = vec![0x56, 0xEC];
    d.extend_from_slice(&[0u8; 10]);
    d.extend_from_slice(&[0xff, 0xff, 203, 0, 113, 7]);
    d.extend_from_slice(&[0u8; 10]);
    d.extend_from_slice(&[0xff, 0xff, 10, 0, 0, 1]);
    d.extend_from_slice(&4000u16.to_be_bytes());
    d.extend_from_slice(&443u16.to_be_bytes());
    d.extend_from_slice(payload);
    d
}

#[test]
fn spp_header_honoured_only_from_listed_proxies() {
    let data = spp_datagram(b"request");
    let proxy = v4(10, 0, 0, 1, 443);
    let (addr, payload) = extract_spp_info(&proxy, &data, &vec![]);
    assert_eq!(addr, v4(203, 0, 113, 7, 4000));
    assert_eq!(payload, b"request");
    let listed = vec![IpAddr::V4(Ipv4Addr::new(10, 0, 0, 1))];
    let (addr, payload) = extract_spp_info(&proxy, &data, &listed);
    assert_eq!(addr, v4(203, 0, 113, 7, 4000));
    assert_eq!(payload, b"request");
    let stranger = v4(10, 0, 0, 2, 443);
    let (addr, payload) = extract_spp_info(&stranger, &data, &listed);
    assert_eq!(addr, stranger);
    assert_eq!(payload, data.as_slice());
    let (addr, payload) = extract_spp_info(&proxy, b"plain", &listed);
    assert_eq!(addr, proxy);
    assert_eq!(payload, b"plain");
}

#[test]
fn payload_ip_needs_the_option_and_a_trusted_sender() {
    let listed = vec![IpAddr::V6(Ipv6Addr::new(0x2001, 0xdb8, 0, 0, 0, 0, 0, 1))];
    let ip6 = IpAddr::V6(Ipv6Addr::new(0x2001, 0xdb8, 0, 0, 0, 0, 0, 1));
    let ip4 = IpAddr::V4(Ipv4Addr::new(1, 1, 1, 1));
    assert!(ip_listed(&listed, &ip6));
    assert!(!ip_listed(&listed, &ip4));
    assert!(payload_ip_allowed(true, &listed, &ip6));
    assert!(!payload_ip_allowed(true, &listed, &ip4));
    assert!(!payload_ip_allowed(false, &listed, &ip6));
    assert!(payload_ip_allowed(true, &vec![], &ip4));
}

#[test]
fn update_queue_keeps_the_newest_and_restores() {
    let mut q = TorrentUpdateQueue::new();
    let d = |c: i64| TorrentUpdateData { completed: c, seeders: 0, leechers: 0 };
    assert!(q.insert(5, InfoHash([1; 20]), d(1), UpdatesAction::Add));
    assert!(!q.insert(3, InfoHash([1; 20]), d(2), UpdatesAction::Update));
    assert!(!q.insert(7, InfoHash([1; 20]), d(3), UpdatesAction::Update));
    assert!(q.insert(1, InfoHash([2; 20]), d(4), UpdatesAction::Remove));
    assert_eq!(q.len(), 2);
    let drained = q.drain();
    assert!(q.is_empty());
    assert_eq!(drained[0].0, InfoHash([1; 20]));
    assert_eq!(drained[0].1 .0, 7);
    assert_eq!(drained[0].1 .1.completed, 3);
    q.insert(9, InfoHash([2; 20]), d(5), UpdatesAction::Update);
    assert_eq!(q.restore(drained), 1);
    let now = q.snapshot();
    assert_eq!(now.len(), 2);
    assert_eq!(now[1].1 .0, 9);
}

#[test]
fn addresses_compare_by_family_and_octets() {
    let a = IpAddr::V4(Ipv4Addr::new(1, 2, 3, 4));
    let b = IpAddr::V4(Ipv4Addr::new(1, 2, 3, 5));
    let c = IpAddr::V6(Ipv6Addr::new(0, 0, 0, 0, 0, 0xffff, 0x0102, 0x0304));
    assert!(ip_eq(&a, &a));
    assert!(!ip_eq(&a, &b));
    assert!(!ip_eq(&a, &c));
    assert!(ip_eq(&c, &c));
}

#[test]
fn plain_parser_reads_no_path_and_fails_short_packets_as_eof() {
    match parse_plain_request(&announce_bytes(b"/announce"), 74) {
        Ok(Request::Announce(a)) => {
            assert_eq!(a.path, "");
            assert_eq!(a.info_hash, InfoHash([7; 20]));
        }
        other => panic!("unexpected {:?}", other),
    }
    assert_eq!(
        parse_plain_request(&[1, 2, 3], 74),
        Err(RequestParseError::Unsendable { err: ParseFailure::Io(IoError::UnexpectedEof) })
    );
}

#[test]
fn unknown_response_action_reads_as_an_error_response() {
    let mut b = 9i32.to_be_bytes().to_vec();
    b.extend_from_slice(&4i32.to_be_bytes());
    match Response::from_bytes(&b, true) {
        Ok(Response::Error(e)) => {
            assert_eq!(e.transaction_id, TransactionId(4));
            assert_eq!(e.message, "Invalid action");
        }
        other => panic!("unexpected {:?}", other),
    }
}

#[test]
fn announce_response_with_peers_round_trips() {
    use_announce_round_trip();
}

fn use_announce_round_trip() {
    let r = Response::AnnounceIpv6(torrust_actix::udp::response::AnnounceResponse {
        transaction_id: TransactionId(3),
        announce_interval: torrust_actix::udp::types::AnnounceInterval(900),
        leechers: torrust_actix::udp::types::NumberOfPeers(2),
        seeders: torrust_actix::udp::types::NumberOfPeers(1),
        peers: vec![torrust_actix::udp::types::ResponsePeer {
            ip_address: Ipv6Addr::new(0x2001, 0xdb8, 0, 0, 0, 0, 0, 9),
            port: torrust_actix::udp::types::Port(6881),
        }],
    });
    let bytes = r.write_to_vec().unwrap();
    assert_eq!(bytes.len(), 20 + 18);
    assert_eq!(r.estimated_size(), bytes.len());
    assert_eq!(Response::from_bytes(&bytes, false).unwrap(), r);
}

#[test]
fn refused_and_bad_datagrams_are_answered_with_bad_request() {
    use_refusals();
}

fn use_refusals() {
    let remote = v4(9, 9, 9, 9, 1);
    let (r, e) = refused_request_reply(&remote, TransactionId(8));
    assert_eq!(e, UdpEvent::Udp4InvalidRequest);
    match r {
        Response::Error(err) => {
            assert_eq!(err.transaction_id, TransactionId(8));
            assert_eq!(err.message, "bad request");
        }
        other => panic!("unexpected {:?}", other),
    }
    let (r, e) = bad_packet_reply(&remote);
    assert_eq!(e, UdpEvent::Udp4BadRequest);
    assert!(matches!(r, Response::Error(ref err) if err.transaction_id == TransactionId(0)));
    assert!(matches!(plan_packet(&[1, 2, 3]), PacketPlan::Bad));
    let mut c = 0x41727101980i64.to_be_bytes().to_vec();
    c.extend_from_slice(&0i32.to_be_bytes());
    c.extend_from_slice(&1i32.to_be_bytes());
    assert!(matches!(plan_packet(&c), PacketPlan::Handle(Request::Connect(_))));
}

#[test]
fn restoring_a_drain_into_an_empty_queue_gives_it_back() {
    let mut q = TorrentUpdateQueue::new();
    let d = |c: i64| TorrentUpdateData { completed: c, seeders: 1, leechers: 2 };
    q.insert(1, InfoHash([3; 20]), d(1), UpdatesAction::Add);
    q.insert(2, InfoHash([1; 20]), d(2), UpdatesAction::Update);
    q.insert(3, InfoHash([2; 20]), d(3), UpdatesAction::Remove);
    let before = q.snapshot();
    let drained = q.drain();
    let mut fresh = TorrentUpdateQueue::new();
    assert_eq!(fresh.restore(drained), 3);
    assert_eq!(fresh.snapshot(), before);
}

#[test]
fn estimated_size_is_the_written_length() {
    let connect = Response::Connect(ConnectResponse { connection_id: ConnectionId(5), transaction_id: TransactionId(1) });
    let stat = TorrentScrapeStatistics { seeders: NumberOfPeers(1), completed: NumberOfDownloads(2), leechers: NumberOfPeers(3) };
    let scrape = Response::Scrape(ScrapeResponse { transaction_id: TransactionId(2), torrent_stats: vec![stat, stat] });
    let error = Response::Error(ErrorResponse { transaction_id: TransactionId(3), message: "né".to_string() });
    for (r, size) in [(connect, 16usize), (scrape, 8 + 24), (error, 8 + 3)] {
        let bytes = r.write_to_vec().unwrap();
        assert_eq!(bytes.len(), size);
        assert_eq!(r.estimated_size(), size);
    }
}
