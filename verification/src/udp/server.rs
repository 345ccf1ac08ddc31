//! The UDP tracker's decisions: connection ids, who may announce, which
//! peers an announce is answered with, scrape statistics, and what a
//! datagram is answered with.

use vstd::prelude::*;
use crate::codec::{get_i64, i64_at, put_bytes, put_u16, put_u64, u16_be_bytes, u64_be_bytes};
use crate::net::{IpAddr, SocketAddr};
use crate::udp::response::{ConnectResponse, ErrorResponse, Response};
use crate::udp::request::ConnectRequest;
use crate::udp::types::{
    AnnounceInterval, ConnectionId, NumberOfPeers, PeerId, Port, ResponsePeer, ServerError,
    TransactionId, server_error_text,
};
use crate::udp::request::{AnnounceModel, AnnounceRequest, Request, RequestModel, ScrapeRequest, parse_request};
use crate::udp::udp::MAX_SCRAPE_TORRENTS;
use crate::udp::types::{InfoHash, NumberOfDownloads, TorrentScrapeStatistics};
use crate::tracker_objects::torrents::TorrentEntryItem;
use crate::udp::response::AnnounceResponse;
use crate::net::{Ipv4Addr, Ipv6Addr};
use crate::common::UserId;
use crate::tracker::{TorrentTracker, TrackerModel};
use crate::tracker::keyed::{HashKey, bytes_of_key, key_bytes, key_of, owned_entries};
use crate::common::TorrentPeer;
use crate::tracker_objects::torrents::TorrentEntry;
use vstd::std_specs::iter::IteratorSpec;
use crate::tracker_objects::stats::StatsEvent;
use crate::tracker_objects::counts::{counts_match, leechers_of, seeders_of};
use crate::tracker_objects::torrents::model_peers;

verus! {

/// How long a connection id lives, in seconds (two minutes, as BEP 15
/// suggests).
pub const CONNECTION_ID_WINDOW_SECS: u64 = 120;

/// What HMAC-SHA256 under `key` gives for `msg`.
pub uninterp spec fn hmac_sha256_tag(key: Seq<u8>, msg: Seq<u8>) -> Seq<u8>;

/// Calls `ring::hmac::sign` with an HMAC-SHA256 key made of `key`. The
/// contract names the tag and states its length, 32 bytes, which is the
/// output length of SHA-256.
#[verifier::external_body]
fn hmac_sha256(key: &[u8], msg: &[u8]) -> (r: Vec<u8>)
    ensures
        r@ == hmac_sha256_tag(key@, msg@),
        r@.len() == 32,
{
    let k = ring::hmac::Key::new(ring::hmac::HMAC_SHA256, key);
    ring::hmac::sign(&k, msg).as_ref().to_vec()
}

/// Fills `n` bytes from `ring::rand::SystemRandom`. Nothing is promised of
/// the bytes; when the system generator fails the result is `None`.
#[verifier::external_body]
fn system_random_bytes(n: usize) -> (r: Option<Vec<u8>>)
    ensures
        r matches Some(v) ==> v@.len() == n,
{
    let mut buf = vec![0u8; n];
    match ring::rand::SecureRandom::fill(&ring::rand::SystemRandom::new(), &mut buf) {
        Ok(()) => Some(buf),
        Err(_) => None,
    }
}

/// The secret that connection ids are keyed with: 32 bytes, drawn once per
/// process, so ids do not survive a restart.
pub struct ConnectionIdKey {
    bytes: Vec<u8>,
}

impl View for ConnectionIdKey {
    type V = Seq<u8>;

    closed spec fn view(&self) -> Seq<u8> {
        self.bytes@
    }
}

impl ConnectionIdKey {
    /// A fresh key from the system's random generator, or `None` when the
    /// generator fails.
    pub fn generate() -> (r: Option<ConnectionIdKey>)
        ensures
            r matches Some(k) ==> k@.len() == 32,
    {
        match system_random_bytes(32) {
            Some(bytes) => Some(ConnectionIdKey { bytes }),
            None => None,
        }
    }

    /// A key made of the given bytes.
    pub fn from_bytes(bytes: Vec<u8>) -> (r: ConnectionIdKey)
        ensures
            r@ == bytes@,
    {
        ConnectionIdKey { bytes }
    }
}

/// The octets of an address.
pub open spec fn ip_octets(ip: IpAddr) -> Seq<u8> {
    match ip {
        IpAddr::V4(a) => a.octets@,
        IpAddr::V6(a) => a.octets@,
    }
}

/// What a connection id authenticates: the window, the port, the address.
pub open spec fn connection_message(remote: SocketAddr, window: u64) -> Seq<u8> {
    u64_be_bytes(window) + u16_be_bytes(remote.port) + ip_octets(remote.ip)
}

/// The connection id of `remote` in `window`: the first eight bytes of the
/// keyed tag, read big-endian.
pub open spec fn connection_id_of(key: Seq<u8>, remote: SocketAddr, window: u64) -> i64 {
    i64_at(hmac_sha256_tag(key, connection_message(remote, window)), 0)
}

/// The window that the time `now` (seconds since the epoch) falls in.
pub open spec fn window_of(now: u64) -> u64 {
    now / CONNECTION_ID_WINDOW_SECS
}

/// The window before `w`, wrapping around below zero.
pub open spec fn previous_window(w: u64) -> u64 {
    if w == 0 {
        u64::MAX
    } else {
        (w - 1) as u64
    }
}

/// Whether `id` is an id that `remote` could hold at `now`: the id of this
/// window or of the one before.
pub open spec fn id_valid_at(key: Seq<u8>, remote: SocketAddr, id: i64, now: u64) -> bool {
    id == connection_id_of(key, remote, window_of(now)) || id == connection_id_of(
        key,
        remote,
        previous_window(window_of(now)),
    )
}

/// The connection id of `remote` in `window`.
pub fn derive_connection_id(key: &ConnectionIdKey, remote_address: &SocketAddr, window: u64) -> (r: ConnectionId)
    ensures
        r.0 == connection_id_of(key@, *remote_address, window),
{
    let mut msg: Vec<u8> = Vec::new();
    put_u64(&mut msg, window);
    put_u16(&mut msg, remote_address.port);
    match &remote_address.ip {
        IpAddr::V4(a) => put_bytes(&mut msg, &a.octets),
        IpAddr::V6(a) => put_bytes(&mut msg, &a.octets),
    }
    assert(msg@ =~= connection_message(*remote_address, window));
    let tag = hmac_sha256(key.bytes.as_slice(), msg.as_slice());
    ConnectionId(get_i64(tag.as_slice(), 0))
}

/// The window that `now` (seconds since the epoch) falls in.
pub fn connection_id_window(now: u64) -> (r: u64)
    ensures
        r == window_of(now),
{
    now / CONNECTION_ID_WINDOW_SECS
}

/// The connection id to hand `remote_address` at `now`.
pub fn get_connection_id(key: &ConnectionIdKey, remote_address: &SocketAddr, now: u64) -> (r: ConnectionId)
    ensures
        r.0 == connection_id_of(key@, *remote_address, window_of(now)),
{
    derive_connection_id(key, remote_address, connection_id_window(now))
}

/// Whether `connection_id` is one that this tracker would have handed
/// `remote_address` in the window of `now` or in the one before.
pub fn connection_id_valid(key: &ConnectionIdKey, remote_address: &SocketAddr, connection_id: ConnectionId, now: u64) -> (r: bool)
    ensures
        r == id_valid_at(key@, *remote_address, connection_id.0, now),
{
    let window = connection_id_window(now);
    let current = derive_connection_id(key, remote_address, window);
    if connection_id.0 == current.0 {
        return true;
    }
    let previous = derive_connection_id(key, remote_address, window.wrapping_sub(1));
    connection_id.0 == previous.0
}

/// A connection id handed out at one moment is still accepted at any
/// moment of the same window and of the next.
pub proof fn lemma_issued_id_accepted(key: Seq<u8>, remote: SocketAddr, issued: u64, later: u64)
    requires
        issued <= later,
        window_of(later) <= window_of(issued) + 1,
    ensures
        id_valid_at(key, remote, connection_id_of(key, remote, window_of(issued)), later),
{
    if window_of(later) != window_of(issued) {
        assert(window_of(later) - 1 == window_of(issued));
    }
}

/// Which counter a handled datagram moves.
#[derive(PartialEq, Eq, Structural, Clone, Copy, Debug)]
pub enum UdpEvent {
    Udp4ConnectionsHandled,
    Udp6ConnectionsHandled,
    Udp4AnnouncesHandled,
    Udp6AnnouncesHandled,
    Udp4ScrapesHandled,
    Udp6ScrapesHandled,
    Udp4InvalidRequest,
    Udp6InvalidRequest,
    Udp4BadRequest,
    Udp6BadRequest,
}

/// The statistics counter of an event, where the statistics keep one.
pub open spec fn udp_stats_event(e: UdpEvent) -> Option<StatsEvent> {
    match e {
        UdpEvent::Udp4ConnectionsHandled => Some(StatsEvent::Udp4ConnectionsHandled),
        UdpEvent::Udp6ConnectionsHandled => Some(StatsEvent::Udp6ConnectionsHandled),
        UdpEvent::Udp4AnnouncesHandled => Some(StatsEvent::Udp4AnnouncesHandled),
        UdpEvent::Udp6AnnouncesHandled => Some(StatsEvent::Udp6AnnouncesHandled),
        UdpEvent::Udp4ScrapesHandled => Some(StatsEvent::Udp4ScrapesHandled),
        UdpEvent::Udp6ScrapesHandled => Some(StatsEvent::Udp6ScrapesHandled),
        UdpEvent::Udp4InvalidRequest => Some(StatsEvent::Udp4InvalidRequest),
        UdpEvent::Udp6InvalidRequest => Some(StatsEvent::Udp6InvalidRequest),
        UdpEvent::Udp4BadRequest => Some(StatsEvent::Udp4BadRequest),
        UdpEvent::Udp6BadRequest => Some(StatsEvent::Udp6BadRequest),
    }
}

impl UdpEvent {
    /// The statistics counter of this event, where the statistics keep one.
    pub fn stats_event(&self) -> (r: Option<StatsEvent>)
        ensures
            r == udp_stats_event(*self),
    {
        match self {
            UdpEvent::Udp4ConnectionsHandled => Some(StatsEvent::Udp4ConnectionsHandled),
            UdpEvent::Udp6ConnectionsHandled => Some(StatsEvent::Udp6ConnectionsHandled),
            UdpEvent::Udp4AnnouncesHandled => Some(StatsEvent::Udp4AnnouncesHandled),
            UdpEvent::Udp6AnnouncesHandled => Some(StatsEvent::Udp6AnnouncesHandled),
            UdpEvent::Udp4ScrapesHandled => Some(StatsEvent::Udp4ScrapesHandled),
            UdpEvent::Udp6ScrapesHandled => Some(StatsEvent::Udp6ScrapesHandled),
            UdpEvent::Udp4InvalidRequest => Some(StatsEvent::Udp4InvalidRequest),
            UdpEvent::Udp6InvalidRequest => Some(StatsEvent::Udp6InvalidRequest),
            UdpEvent::Udp4BadRequest => Some(StatsEvent::Udp4BadRequest),
            UdpEvent::Udp6BadRequest => Some(StatsEvent::Udp6BadRequest),
        }
    }
}

/// Answers a connect request: the connection id of `remote_addr` at `now`,
/// counted by the address family of `remote_addr`.
pub fn handle_udp_connect(key: &ConnectionIdKey, remote_addr: &SocketAddr, request: &ConnectRequest, now: u64) -> (r: (Response, UdpEvent))
    ensures
        r.0@ == (crate::udp::response::ResponseModel::Connect {
            transaction_id: request.transaction_id.0,
            connection_id: connection_id_of(key@, *remote_addr, window_of(now)),
        }),
        r.1 == (if remote_addr.ip is V4 {
            UdpEvent::Udp4ConnectionsHandled
        } else {
            UdpEvent::Udp6ConnectionsHandled
        }),
{
    let connection_id = get_connection_id(key, remote_addr, now);
    let response = Response::Connect(
        ConnectResponse { transaction_id: request.transaction_id, connection_id },
    );
    let event = if remote_addr.is_ipv4() {
        UdpEvent::Udp4ConnectionsHandled
    } else {
        UdpEvent::Udp6ConnectionsHandled
    };
    (response, event)
}

/// The error response for a refused request: the error's message under the
/// request's transaction id.
pub fn handle_udp_error(e: ServerError, transaction_id: TransactionId) -> (r: Response)
    ensures
        r@ == (crate::udp::response::ResponseModel::Error {
            transaction_id: transaction_id.0,
            message: server_error_text(e),
        }),
{
    let message = String::from_str(e.message());
    Response::Error(ErrorResponse { transaction_id, message })
}

/// Where the 40 hex digits of the announce key start in `/announce/<key>/<user key>`.
pub const KEY_PATH_START: usize = 10;

/// Where the 40 hex digits of the user key start.
pub const USER_KEY_PATH_START: usize = 51;

/// The value of a hex digit, upper or lower case.
pub open spec fn hex_digit(c: u8) -> Option<u8> {
    if 65 <= c <= 70 {
        Some((c - 65 + 10) as u8)
    } else if 97 <= c <= 102 {
        Some((c - 97 + 10) as u8)
    } else if 48 <= c <= 57 {
        Some((c - 48) as u8)
    } else {
        None
    }
}

/// Whether `s` is an even number of hex digits.
pub open spec fn hex_valid(s: Seq<u8>) -> bool {
    &&& s.len() % 2 == 0
    &&& forall|i: int| 0 <= i < s.len() ==> (#[trigger] hex_digit(s[i])) is Some
}

/// The bytes that the hex digits `s` spell, two digits a byte, the first
/// the high half.
pub open spec fn hex_decoded(s: Seq<u8>) -> Seq<u8> {
    Seq::new(
        s.len() / 2,
        |i: int| ((hex_digit(s[2 * i])->0 << 4u8) | hex_digit(s[2 * i + 1])->0) as u8,
    )
}

/// Calls `hex::decode`: it fails on an odd length or a character that is no
/// hex digit, and otherwise gives the bytes that the digits spell.
#[verifier::external_body]
fn hex_decode(data: &[u8]) -> (r: Option<Vec<u8>>)
    ensures
        r is Some <==> hex_valid(data@),
        r matches Some(v) ==> v@ == hex_decoded(data@),
{
    match hex::decode(data) {
        Ok(v) => Some(v),
        Err(_) => None,
    }
}

/// The 20-byte key whose 40 hex digits stand at `start` in `path`, if they
/// are there and are hex.
pub open spec fn path_key(path: Seq<u8>, start: int) -> Option<Seq<u8>> {
    if start + 40 <= path.len() && hex_valid(path.subrange(start, start + 40)) {
        Some(hex_decoded(path.subrange(start, start + 40)).subrange(0, 20))
    } else {
        None
    }
}

/// Reads the 20-byte key whose hex digits stand at `start` in `path`.
pub fn key_from_path(path: &[u8], start: usize) -> (r: Option<[u8; 20]>)
    requires
        start <= usize::MAX - 40,
    ensures
        match r {
            Some(k) => path_key(path@, start as int) == Some(k@),
            None => path_key(path@, start as int) is None,
        },
{
    if start + 40 > path.len() {
        return None;
    }
    let digits = crate::udp::request::slice_subrange(path, start, start + 40);
    match hex_decode(digits.as_slice()) {
        Some(v) => {
            if v.len() >= 20 {
                let k = crate::codec::array20(v.as_slice(), 0);
                Some(k)
            } else {
                None
            }
        },
        None => None,
    }
}

/// Which checks an announce must pass.
#[derive(Clone, Copy, Debug)]
pub struct AnnounceConfig {
    pub whitelist_enabled: bool,
    pub blacklist_enabled: bool,
    pub keys_enabled: bool,
    pub users_enabled: bool,
    pub request_interval: u64,
}

/// The bytes of a request path.
pub open spec fn path_bytes(a: AnnounceModel) -> Seq<u8> {
    vstd::utf8::encode_utf8(a.path)
}

/// Whether an announce may go ahead, and the user it comes from: the
/// connection id must be valid; the torrent must be whitelisted when the
/// whitelist is on and not blacklisted when the blacklist is on; with keys
/// on, the path must carry a known key; with users on, it must carry the
/// key of a known user.
pub open spec fn announce_access_of(
    m: TrackerModel,
    config: AnnounceConfig,
    id_valid: bool,
    a: AnnounceModel,
) -> Result<Option<Seq<u8>>, ServerError> {
    let k = key_of(a.info_hash);
    let p = path_bytes(a);
    if !id_valid {
        Err(ServerError::InvalidConnectionId)
    } else if config.whitelist_enabled && !m.whitelist.contains_key(k) {
        Err(ServerError::TorrentNotWhitelisted)
    } else if config.blacklist_enabled && m.blacklist.contains_key(k) {
        Err(ServerError::TorrentBlacklisted)
    } else if config.keys_enabled && (path_key(p, 10) is None || !m.keys.contains_key(
        key_of(path_key(p, 10)->0),
    )) {
        Err(ServerError::UnknownKey)
    } else if config.users_enabled {
        if path_key(p, 51) is None || !m.users.contains_key(key_of(path_key(p, 51)->0)) {
            Err(ServerError::PeerKeyNotValid)
        } else {
            Ok(Some(path_key(p, 51)->0))
        }
    } else {
        Ok(None)
    }
}

/// Decides whether an announce may go ahead; gives the user it comes from
/// when users are on.
pub fn announce_access(
    tracker: &TorrentTracker,
    config: &AnnounceConfig,
    key: &ConnectionIdKey,
    now: u64,
    remote_addr: &SocketAddr,
    request: &AnnounceRequest,
) -> (r: Result<Option<UserId>, ServerError>)
    ensures
        ({
            let expected = announce_access_of(
                tracker@,
                *config,
                id_valid_at(key@, *remote_addr, request.connection_id.0, now),
                request@,
            );
            match r {
                Ok(Some(u)) => expected == Ok::<Option<Seq<u8>>, ServerError>(Some(u@)),
                Ok(None) => expected == Ok::<Option<Seq<u8>>, ServerError>(None),
                Err(e) => expected == Err::<Option<Seq<u8>>, ServerError>(e),
            }
        }),
{
    if !connection_id_valid(key, remote_addr, request.connection_id, now) {
        return Err(ServerError::InvalidConnectionId);
    }
    if config.whitelist_enabled && !tracker.check_whitelist(request.info_hash) {
        return Err(ServerError::TorrentNotWhitelisted);
    }
    if config.blacklist_enabled && tracker.check_blacklist(request.info_hash) {
        return Err(ServerError::TorrentBlacklisted);
    }
    let path = request.path.as_str().as_bytes();
    if config.keys_enabled {
        match key_from_path(path, KEY_PATH_START) {
            None => {
                return Err(ServerError::UnknownKey);
            },
            Some(k) => {
                if !tracker.check_key(crate::udp::types::InfoHash(k)) {
                    return Err(ServerError::UnknownKey);
                }
            },
        }
    }
    if config.users_enabled {
        match key_from_path(path, USER_KEY_PATH_START) {
            None => Err(ServerError::PeerKeyNotValid),
            Some(k) => {
                if tracker.check_user_key(UserId(k)) {
                    Ok(Some(UserId(k)))
                } else {
                    Err(ServerError::PeerKeyNotValid)
                }
            },
        }
    } else {
        Ok(None)
    }
}

/// The address an announce speaks for: the address in the request when the
/// server trusts it and the request carries one (with the sender's port),
/// else the sender's.
pub open spec fn effective_addr_of(remote: SocketAddr, request: AnnounceRequest, use_payload_ip: bool) -> SocketAddr {
    if use_payload_ip && request.ip_address is Some {
        SocketAddr { ip: IpAddr::V4(request.ip_address->0), port: remote.port }
    } else {
        remote
    }
}

/// The address an announce speaks for; see `effective_addr_of`.
pub fn effective_remote_addr(remote_addr: &SocketAddr, request: &AnnounceRequest, use_payload_ip: bool) -> (r: SocketAddr)
    ensures
        r == effective_addr_of(*remote_addr, *request, use_payload_ip),
{
    if use_payload_ip {
        if let Some(payload_ip) = request.ip_address {
            return SocketAddr { ip: IpAddr::V4(payload_ip), port: remote_addr.port };
        }
    }
    *remote_addr
}

/// How many peers an announce is answered with: what it asks for when that
/// is 1 to 72, else 72 (a client may send -1 for the tracker's choice).
pub open spec fn want_of(peers_wanted: i32) -> int {
    if 1 <= peers_wanted <= 72 {
        peers_wanted as int
    } else {
        72
    }
}

/// How many peers an announce is answered with; see `want_of`.
pub fn wanted_peers(peers_wanted: i32) -> (r: usize)
    ensures
        r == want_of(peers_wanted),
{
    if 1 <= peers_wanted && peers_wanted <= 72 {
        peers_wanted as usize
    } else {
        72
    }
}

/// One peer of the swarm offered to an IPv4 answer: taken while the answer
/// has room, unless it is the asking peer or has no IPv4 address.
pub open spec fn step_v4(acc: Seq<(Seq<u8>, u16)>, e: (PeerId, SocketAddr), self_id: Seq<u8>, want: int) -> Seq<(Seq<u8>, u16)> {
    if acc.len() < want && e.0@ != self_id && e.1.ip is V4 {
        acc.push((e.1.ip->V4_0.octets@, e.1.port))
    } else {
        acc
    }
}

/// The same for an IPv6 answer.
pub open spec fn step_v6(acc: Seq<(Seq<u8>, u16)>, e: (PeerId, SocketAddr), self_id: Seq<u8>, want: int) -> Seq<(Seq<u8>, u16)> {
    if acc.len() < want && e.0@ != self_id && e.1.ip is V6 {
        acc.push((e.1.ip->V6_0.octets@, e.1.port))
    } else {
        acc
    }
}

/// Offering the peers of `list` in order to an answer that holds `acc`.
pub open spec fn pick(list: Seq<(PeerId, SocketAddr)>, self_id: Seq<u8>, want: int, acc: Seq<(Seq<u8>, u16)>, v4: bool) -> Seq<(Seq<u8>, u16)>
    decreases list.len(),
{
    if list.len() == 0 {
        acc
    } else {
        let next = if v4 {
            step_v4(acc, list[0], self_id, want)
        } else {
            step_v6(acc, list[0], self_id, want)
        };
        pick(list.drop_first(), self_id, want, next, v4)
    }
}

/// A full answer takes no more peers.
proof fn lemma_pick_full(list: Seq<(PeerId, SocketAddr)>, self_id: Seq<u8>, want: int, acc: Seq<(Seq<u8>, u16)>, v4: bool)
    requires
        acc.len() >= want,
    ensures
        pick(list, self_id, want, acc, v4) == acc,
    decreases list.len(),
{
    if list.len() > 0 {
        lemma_pick_full(list.drop_first(), self_id, want, acc, v4);
    }
}

/// An answer never holds more than it wants.
proof fn lemma_pick_len(list: Seq<(PeerId, SocketAddr)>, self_id: Seq<u8>, want: int, acc: Seq<(Seq<u8>, u16)>, v4: bool)
    requires
        acc.len() <= want,
    ensures
        pick(list, self_id, want, acc, v4).len() <= want,
    decreases list.len(),
{
    if list.len() > 0 {
        let next = if v4 {
            step_v4(acc, list[0], self_id, want)
        } else {
            step_v6(acc, list[0], self_id, want)
        };
        lemma_pick_len(list.drop_first(), self_id, want, next, v4);
    }
}

/// The peers of IPv4 answers as plain values.
pub open spec fn v4_peers(ps: Seq<ResponsePeer<Ipv4Addr>>) -> Seq<(Seq<u8>, u16)> {
    ps.map_values(|p: ResponsePeer<Ipv4Addr>| p@)
}

/// The peers of IPv6 answers as plain values.
pub open spec fn v6_peers(ps: Seq<ResponsePeer<Ipv6Addr>>) -> Seq<(Seq<u8>, u16)> {
    ps.map_values(|p: ResponsePeer<Ipv6Addr>| p@)
}

/// Offers the peers of `list` in order to an IPv4 answer.
fn pick_v4(list: &Vec<(PeerId, SocketAddr)>, self_peer_id: &PeerId, want: usize, out: &mut Vec<ResponsePeer<Ipv4Addr>>)
    requires
        old(out)@.len() <= want,
    ensures
        v4_peers(final(out)@) == pick(list@, self_peer_id@, want as int, v4_peers(old(out)@), true),
{
    let ghost start = v4_peers(out@);
    let mut i: usize = 0;
    assert(list@.skip(0) =~= list@);
    while i < list.len()
        invariant
            i <= list@.len(),
            out@.len() <= want,
            pick(list@, self_peer_id@, want as int, start, true) == pick(
                list@.skip(i as int),
                self_peer_id@,
                want as int,
                v4_peers(out@),
                true,
            ),
        ensures
            v4_peers(out@) == pick(list@, self_peer_id@, want as int, start, true),
        decreases list@.len() - i,
    {
        if out.len() >= want {
            proof {
                lemma_pick_full(list@.skip(i as int), self_peer_id@, want as int, v4_peers(out@), true);
            }
            break;
        }
        let (peer_id, addr) = list[i];
        let ghost before = v4_peers(out@);
        proof {
            assert(list@.skip(i as int).drop_first() =~= list@.skip(i + 1));
            assert(list@.skip(i as int)[0] == list@[i as int]);
        }
        if !peer_id_eq(&peer_id, self_peer_id) {
            if let IpAddr::V4(ip) = addr.ip {
                out.push(ResponsePeer { ip_address: ip, port: Port(addr.port) });
                assert(v4_peers(out@) =~= before.push((ip.octets@, addr.port)));
            }
        }
        i = i + 1;
        proof {
            if i == list.len() {
                assert(list@.skip(i as int) =~= Seq::<(PeerId, SocketAddr)>::empty());
            }
        }
    }
}

/// Offers the peers of `list` in order to an IPv6 answer.
fn pick_v6(list: &Vec<(PeerId, SocketAddr)>, self_peer_id: &PeerId, want: usize, out: &mut Vec<ResponsePeer<Ipv6Addr>>)
    requires
        old(out)@.len() <= want,
    ensures
        v6_peers(final(out)@) == pick(list@, self_peer_id@, want as int, v6_peers(old(out)@), false),
{
    let ghost start = v6_peers(out@);
    let mut i: usize = 0;
    assert(list@.skip(0) =~= list@);
    while i < list.len()
        invariant
            i <= list@.len(),
            out@.len() <= want,
            pick(list@, self_peer_id@, want as int, start, false) == pick(
                list@.skip(i as int),
                self_peer_id@,
                want as int,
                v6_peers(out@),
                false,
            ),
        ensures
            v6_peers(out@) == pick(list@, self_peer_id@, want as int, start, false),
        decreases list@.len() - i,
    {
        if out.len() >= want {
            proof {
                lemma_pick_full(list@.skip(i as int), self_peer_id@, want as int, v6_peers(out@), false);
            }
            break;
        }
        let (peer_id, addr) = list[i];
        let ghost before = v6_peers(out@);
        proof {
            assert(list@.skip(i as int).drop_first() =~= list@.skip(i + 1));
            assert(list@.skip(i as int)[0] == list@[i as int]);
        }
        if !peer_id_eq(&peer_id, self_peer_id) {
            if let IpAddr::V6(ip) = addr.ip {
                out.push(ResponsePeer { ip_address: ip, port: Port(addr.port) });
                assert(v6_peers(out@) =~= before.push((ip.octets@, addr.port)));
            }
        }
        i = i + 1;
        proof {
            if i == list.len() {
                assert(list@.skip(i as int) =~= Seq::<(PeerId, SocketAddr)>::empty());
            }
        }
    }
}

/// Whether two peer ids are the same 20 bytes.
pub fn peer_id_eq(a: &PeerId, b: &PeerId) -> (r: bool)
    ensures
        r == (a@ == b@),
{
    let mut i: usize = 0;
    while i < 20
        invariant
            i <= 20,
            forall|j: int| 0 <= j < i ==> a.0@[j] == b.0@[j],
        decreases 20 - i,
    {
        if a.0[i] != b.0[i] {
            return false;
        }
        i = i + 1;
    }
    assert(a@ =~= b@);
    true
}

/// What the tracker knows of a swarm when it answers an announce: its
/// seeders and other peers, each by address family and in the tracker's
/// order, and its totals.
pub struct AnnounceSwarm {
    pub seeds: Vec<(PeerId, SocketAddr)>,
    pub seeds_ipv6: Vec<(PeerId, SocketAddr)>,
    pub peers: Vec<(PeerId, SocketAddr)>,
    pub peers_ipv6: Vec<(PeerId, SocketAddr)>,
    pub total_seeds: i64,
    pub total_peers: i64,
}

/// The peers of a walk that are seeders (or not) and have an IPv4 (or IPv6)
/// address, in walk order, as (peer id bytes, address).
pub open spec fn swarm_part(w: Seq<(HashKey, TorrentPeer)>, seed: bool, v4: bool) -> Seq<(Seq<u8>, SocketAddr)>
    decreases w.len(),
{
    if w.len() == 0 {
        Seq::empty()
    } else {
        let rest = swarm_part(w.drop_last(), seed, v4);
        let (k, p) = w.last();
        if p.is_seed() == seed && (p.peer_addr.ip is V4) == v4 {
            rest.push((bytes_of_key(k), p.peer_addr))
        } else {
            rest
        }
    }
}

/// A list of (peer id, address) as plain values.
pub open spec fn pair_views(s: Seq<(PeerId, SocketAddr)>) -> Seq<(Seq<u8>, SocketAddr)> {
    s.map_values(|p: (PeerId, SocketAddr)| (p.0@, p.1))
}

/// The swarm of a torrent entry as an announce answer needs it: its peers
/// sorted into seeders and others by address family, in the entry's order,
/// with the entry's seeder and leecher counts as totals.
pub fn swarm_of(entry: &TorrentEntry) -> (r: AnnounceSwarm)
    ensures
        ({
            let w = owned_entries(vstd::std_specs::btree::spec_btree_map_iter(&entry.peers).remaining());
            &&& pair_views(r.seeds@) == swarm_part(w, true, true)
            &&& pair_views(r.seeds_ipv6@) == swarm_part(w, true, false)
            &&& pair_views(r.peers@) == swarm_part(w, false, true)
            &&& pair_views(r.peers_ipv6@) == swarm_part(w, false, false)
            &&& r.total_seeds == entry.seeders
            &&& r.total_peers == entry.leechers
        }),
{
    let ghost rem = vstd::std_specs::btree::spec_btree_map_iter(&entry.peers).remaining();
    let ghost w = owned_entries(rem);
    let mut seeds: Vec<(PeerId, SocketAddr)> = Vec::new();
    let mut seeds_ipv6: Vec<(PeerId, SocketAddr)> = Vec::new();
    let mut peers: Vec<(PeerId, SocketAddr)> = Vec::new();
    let mut peers_ipv6: Vec<(PeerId, SocketAddr)> = Vec::new();
    for kv in it: entry.peers.iter()
        invariant
            rem == vstd::std_specs::btree::spec_btree_map_iter(&entry.peers).remaining(),
            w == owned_entries(rem),
            it.seq() == rem,
            pair_views(seeds@) == swarm_part(w.take(it.index() as int), true, true),
            pair_views(seeds_ipv6@) == swarm_part(w.take(it.index() as int), true, false),
            pair_views(peers@) == swarm_part(w.take(it.index() as int), false, true),
            pair_views(peers_ipv6@) == swarm_part(w.take(it.index() as int), false, false),
    {
        let ghost idx = it.index();
        let ghost before = (seeds@, seeds_ipv6@, peers@, peers_ipv6@);
        let p = *kv.1;
        let id = PeerId(key_bytes(*kv.0));
        let seed = p.left.0 == 0;
        let v4 = p.peer_addr.is_ipv4();
        if seed && v4 {
            seeds.push((id, p.peer_addr));
        } else if seed {
            seeds_ipv6.push((id, p.peer_addr));
        } else if v4 {
            peers.push((id, p.peer_addr));
        } else {
            peers_ipv6.push((id, p.peer_addr));
        }
        proof {
            assert(w[idx] == (*kv.0, *kv.1));
            assert(w.take(idx + 1).drop_last() =~= w.take(idx));
            assert(w.take(idx + 1).last() == w[idx]);
            assert(pair_views(seeds@) =~= if seed && v4 {
                pair_views(before.0).push((bytes_of_key(*kv.0), p.peer_addr))
            } else {
                pair_views(before.0)
            });
            assert(pair_views(seeds_ipv6@) =~= if seed && !v4 {
                pair_views(before.1).push((bytes_of_key(*kv.0), p.peer_addr))
            } else {
                pair_views(before.1)
            });
            assert(pair_views(peers@) =~= if !seed && v4 {
                pair_views(before.2).push((bytes_of_key(*kv.0), p.peer_addr))
            } else {
                pair_views(before.2)
            });
            assert(pair_views(peers_ipv6@) =~= if !seed && !v4 {
                pair_views(before.3).push((bytes_of_key(*kv.0), p.peer_addr))
            } else {
                pair_views(before.3)
            });
        }
    }
    proof {
        assert(w.take(w.len() as int) =~= w);
    }
    AnnounceSwarm {
        seeds,
        seeds_ipv6,
        peers,
        peers_ipv6,
        total_seeds: entry.seeders,
        total_peers: entry.leechers,
    }
}

/// The peers an announce is answered with: seeders first, and only to a
/// peer that still has something to download; then the other peers; never
/// the asking peer; only addresses of the family that the announce speaks
/// for; at most `want_of(peers_wanted)`.
pub open spec fn answer_peers(request: AnnounceRequest, effective: SocketAddr, swarm: AnnounceSwarm) -> Seq<(Seq<u8>, u16)> {
    let want = want_of(request.peers_wanted.0);
    let self_id = request.peer_id@;
    let v4 = effective.ip is V4;
    let seeds = if v4 { swarm.seeds@ } else { swarm.seeds_ipv6@ };
    let others = if v4 { swarm.peers@ } else { swarm.peers_ipv6@ };
    let first = if request.bytes_left.0 != 0 {
        pick(seeds, self_id, want, Seq::empty(), v4)
    } else {
        Seq::empty()
    };
    pick(others, self_id, want, first, v4)
}

/// Where a socket address stands in an answer: its octets and its port.
pub open spec fn answered_addr(a: SocketAddr) -> (Seq<u8>, u16) {
    (ip_octets(a.ip), a.port)
}

/// Whether the entry `e` of a list may be offered to the peer `self_id` in
/// an answer of the family `v4` says.
spec fn eligible(e: (PeerId, SocketAddr), self_id: Seq<u8>, v4: bool) -> bool {
    e.0@ != self_id && (e.1.ip is V4) == v4
}

/// Whether `x` is the answered address of an eligible peer of `list`.
spec fn offered_from(list: Seq<(PeerId, SocketAddr)>, self_id: Seq<u8>, v4: bool, x: (Seq<u8>, u16)) -> bool {
    exists|j: int| 0 <= j < list.len() && eligible(list[j], self_id, v4) && #[trigger] answered_addr(list[j].1) == x
}

/// What `pick` answers is what it started with, then addresses of eligible
/// peers of `list`; an answer left short of `want` holds every eligible peer.
proof fn lemma_pick_from(list: Seq<(PeerId, SocketAddr)>, self_id: Seq<u8>, want: int, acc: Seq<(Seq<u8>, u16)>, v4: bool)
    ensures
        acc.len() <= pick(list, self_id, want, acc, v4).len(),
        forall|i: int| 0 <= i < acc.len() ==> #[trigger] pick(list, self_id, want, acc, v4)[i] == acc[i],
        forall|i: int| acc.len() <= i < pick(list, self_id, want, acc, v4).len() ==> offered_from(
            list,
            self_id,
            v4,
            #[trigger] pick(list, self_id, want, acc, v4)[i],
        ),
        pick(list, self_id, want, acc, v4).len() < want ==> forall|j: int|
            0 <= j < list.len() && eligible(#[trigger] list[j], self_id, v4) ==> pick(list, self_id, want, acc, v4).contains(
                answered_addr(list[j].1),
            ),
    decreases list.len(),
{
    if list.len() > 0 {
        let next = if v4 {
            step_v4(acc, list[0], self_id, want)
        } else {
            step_v6(acc, list[0], self_id, want)
        };
        lemma_pick_from(list.drop_first(), self_id, want, next, v4);
        let r = pick(list, self_id, want, acc, v4);
        assert(r == pick(list.drop_first(), self_id, want, next, v4));
        assert forall|i: int| acc.len() <= i < r.len() implies offered_from(list, self_id, v4, #[trigger] r[i]) by {
            if i < next.len() {
                assert(next.len() == acc.len() + 1);
                assert(r[i] == next[i]);
                assert(answered_addr(list[0].1) == r[i]);
            } else {
                assert(offered_from(list.drop_first(), self_id, v4, r[i]));
                let j = choose|j: int| 0 <= j < list.drop_first().len() && eligible(list.drop_first()[j], self_id, v4)
                    && #[trigger] answered_addr(list.drop_first()[j].1) == r[i];
                assert(list.drop_first()[j] == list[j + 1]);
                assert(answered_addr(list[j + 1].1) == r[i]);
            }
        }
        if r.len() < want {
            assert forall|j: int| 0 <= j < list.len() && eligible(#[trigger] list[j], self_id, v4) implies r.contains(
                answered_addr(list[j].1),
            ) by {
                if j == 0 {
                    if acc.len() >= want {
                        lemma_pick_full(list, self_id, want, acc, v4);
                    }
                    assert(next.len() == acc.len() + 1);
                    assert(next[acc.len() as int] == answered_addr(list[0].1));
                    assert(r[acc.len() as int] == next[acc.len() as int]);
                } else {
                    assert(list.drop_first()[j - 1] == list[j]);
                }
            }
        }
    } else {
        assert(pick(list, self_id, want, acc, v4) == acc);
    }
}

/// Whether `x` is (id bytes, address) of a peer of the walk `w` that seeds
/// or not as `seed` says, in the family `v4` says.
spec fn in_walk(w: Seq<(HashKey, TorrentPeer)>, seed: bool, v4: bool, x: (Seq<u8>, SocketAddr)) -> bool {
    exists|i: int|
        0 <= i < w.len() && (#[trigger] w[i]).1.is_seed() == seed && (w[i].1.peer_addr.ip is V4) == v4
            && (bytes_of_key(w[i].0), w[i].1.peer_addr) == x
}

/// A part of the swarm holds exactly the peers of the walk of its kind.
proof fn lemma_swarm_part_from(w: Seq<(HashKey, TorrentPeer)>, seed: bool, v4: bool)
    ensures
        forall|j: int| 0 <= j < swarm_part(w, seed, v4).len() ==> in_walk(w, seed, v4, #[trigger] swarm_part(w, seed, v4)[j]),
        forall|i: int| 0 <= i < w.len() && (#[trigger] w[i]).1.is_seed() == seed && (w[i].1.peer_addr.ip is V4) == v4
            ==> swarm_part(w, seed, v4).contains((bytes_of_key(w[i].0), w[i].1.peer_addr)),
    decreases w.len(),
{
    if w.len() > 0 {
        lemma_swarm_part_from(w.drop_last(), seed, v4);
        let rest = swarm_part(w.drop_last(), seed, v4);
        let sp = swarm_part(w, seed, v4);
        assert forall|j: int| 0 <= j < sp.len() implies in_walk(w, seed, v4, #[trigger] sp[j]) by {
            if j < rest.len() {
                assert(sp[j] == rest[j]);
                assert(in_walk(w.drop_last(), seed, v4, rest[j]));
                let i = choose|i: int|
                    0 <= i < w.drop_last().len() && (#[trigger] w.drop_last()[i]).1.is_seed() == seed
                        && (w.drop_last()[i].1.peer_addr.ip is V4) == v4
                        && (bytes_of_key(w.drop_last()[i].0), w.drop_last()[i].1.peer_addr) == rest[j];
                assert(w.drop_last()[i] == w[i]);
            } else {
                assert(w[w.len() - 1] == w.last());
            }
        }
        assert forall|i: int| 0 <= i < w.len() && (#[trigger] w[i]).1.is_seed() == seed && (w[i].1.peer_addr.ip is V4) == v4
            implies sp.contains((bytes_of_key(w[i].0), w[i].1.peer_addr)) by {
            let x = (bytes_of_key(w[i].0), w[i].1.peer_addr);
            if i < w.len() - 1 {
                assert(w.drop_last()[i] == w[i]);
                assert(rest.contains(x));
                let k = choose|k: int| 0 <= k < rest.len() && rest[k] == x;
                assert(sp[k] == rest[k]);
            } else {
                assert(w.last() == w[i]);
                assert(sp[rest.len() as int] == x);
            }
        }
    } else {
        assert(swarm_part(w, seed, v4).len() == 0);
    }
}

/// Whether `x` is where a peer of the swarm walk `w` is answered: a peer
/// other than the asking one (`self_id`), with an address of the family
/// `v4` says.
pub open spec fn swarm_peer_at(w: Seq<(HashKey, TorrentPeer)>, self_id: Seq<u8>, v4: bool, x: (Seq<u8>, u16)) -> bool {
    exists|j: int|
        0 <= j < w.len() && bytes_of_key((#[trigger] w[j]).0) != self_id && (w[j].1.peer_addr.ip is V4) == v4
            && answered_addr(w[j].1.peer_addr) == x
}

/// Whether `x` is where a peer of `w` that still has something left to
/// download is answered.
pub open spec fn leecher_at(w: Seq<(HashKey, TorrentPeer)>, x: (Seq<u8>, u16)) -> bool {
    exists|j: int| 0 <= j < w.len() && (#[trigger] w[j]).1.left.0 != 0 && answered_addr(w[j].1.peer_addr) == x
}

/// Whether `x` is where a peer of `w` that has the whole torrent is
/// answered.
pub open spec fn seeder_at(w: Seq<(HashKey, TorrentPeer)>, x: (Seq<u8>, u16)) -> bool {
    exists|j: int| 0 <= j < w.len() && (#[trigger] w[j]).1.left.0 == 0 && answered_addr(w[j].1.peer_addr) == x
}

/// The peers an announce is answered with, for the swarm whose peers `swarm_of`
/// walks as `w`:
/// - at most the number asked for, when that is 1 to 72, else at most 72;
/// - each the address of a peer of the swarm other than the asking peer,
///   of the family the announce speaks for;
/// - to a peer that has the whole torrent (nothing left), no seeder at all;
/// - to a peer that still downloads, a seeder first when the swarm has one
///   to offer;
/// - an answer shorter than asked for holds every peer it could offer.
pub proof fn lemma_announce_answer_peers(
    request: AnnounceRequest,
    effective: SocketAddr,
    swarm: AnnounceSwarm,
    w: Seq<(HashKey, TorrentPeer)>,
)
    requires
        pair_views(swarm.seeds@) == swarm_part(w, true, true),
        pair_views(swarm.seeds_ipv6@) == swarm_part(w, true, false),
        pair_views(swarm.peers@) == swarm_part(w, false, true),
        pair_views(swarm.peers_ipv6@) == swarm_part(w, false, false),
    ensures
        ({
            let ans = answer_peers(request, effective, swarm);
            let self_id = request.peer_id@;
            let v4 = effective.ip is V4;
            let want = if 1 <= request.peers_wanted.0 <= 72 { request.peers_wanted.0 as int } else { 72 };
            &&& ans.len() <= want
            &&& forall|i: int| 0 <= i < ans.len() ==> swarm_peer_at(w, self_id, v4, #[trigger] ans[i])
            &&& request.bytes_left.0 == 0 ==> forall|i: int| 0 <= i < ans.len() ==> leecher_at(w, #[trigger] ans[i])
            &&& ans.len() < want ==> forall|j: int|
                0 <= j < w.len() && bytes_of_key((#[trigger] w[j]).0) != self_id && (w[j].1.peer_addr.ip is V4) == v4
                    && (request.bytes_left.0 != 0 || w[j].1.left.0 != 0) ==> ans.contains(answered_addr(w[j].1.peer_addr))
            &&& request.bytes_left.0 != 0 && (exists|j: int|
                0 <= j < w.len() && (#[trigger] w[j]).1.left.0 == 0 && bytes_of_key(w[j].0) != self_id
                    && (w[j].1.peer_addr.ip is V4) == v4) ==> ans.len() >= 1 && seeder_at(w, ans[0])
        }),
{
    let v4 = effective.ip is V4;
    let self_id = request.peer_id@;
    let seeds = if v4 { swarm.seeds@ } else { swarm.seeds_ipv6@ };
    let others = if v4 { swarm.peers@ } else { swarm.peers_ipv6@ };
    let want = want_of(request.peers_wanted.0);
    let empty = Seq::<(Seq<u8>, u16)>::empty();
    let first = if request.bytes_left.0 != 0 { pick(seeds, self_id, want, empty, v4) } else { empty };
    let ans = answer_peers(request, effective, swarm);
    assert(ans == pick(others, self_id, want, first, v4));
    lemma_pick_from(seeds, self_id, want, empty, v4);
    lemma_pick_len(seeds, self_id, want, empty, v4);
    lemma_pick_from(others, self_id, want, first, v4);
    lemma_pick_len(others, self_id, want, first, v4);
    lemma_swarm_part_from(w, true, v4);
    lemma_swarm_part_from(w, false, v4);
    let sp = swarm_part(w, true, v4);
    let op = swarm_part(w, false, v4);
    assert(pair_views(seeds) == sp);
    assert(pair_views(others) == op);
    // Every answered address is that of a peer of the right kind.
    assert forall|i: int| 0 <= i < ans.len() implies swarm_peer_at(w, self_id, v4, #[trigger] ans[i])
        && (request.bytes_left.0 == 0 ==> leecher_at(w, ans[i])) by {
        if i < first.len() {
            assert(ans[i] == first[i]);
            assert(offered_from(seeds, self_id, v4, first[i]));
            let k = choose|k: int| 0 <= k < seeds.len() && eligible(seeds[k], self_id, v4)
                && #[trigger] answered_addr(seeds[k].1) == first[i];
            assert(pair_views(seeds)[k] == (seeds[k].0@, seeds[k].1));
            assert(in_walk(w, true, v4, sp[k]));
            let j = choose|j: int|
                0 <= j < w.len() && (#[trigger] w[j]).1.is_seed() == true && (w[j].1.peer_addr.ip is V4) == v4
                    && (bytes_of_key(w[j].0), w[j].1.peer_addr) == sp[k];
            assert(answered_addr(w[j].1.peer_addr) == ans[i]);
        } else {
            assert(offered_from(others, self_id, v4, ans[i]));
            let k = choose|k: int| 0 <= k < others.len() && eligible(others[k], self_id, v4)
                && #[trigger] answered_addr(others[k].1) == ans[i];
            assert(pair_views(others)[k] == (others[k].0@, others[k].1));
            assert(in_walk(w, false, v4, op[k]));
            let j = choose|j: int|
                0 <= j < w.len() && (#[trigger] w[j]).1.is_seed() == false && (w[j].1.peer_addr.ip is V4) == v4
                    && (bytes_of_key(w[j].0), w[j].1.peer_addr) == op[k];
            assert(answered_addr(w[j].1.peer_addr) == ans[i]);
        }
    }
    // An answer left short holds every peer it could offer.
    if ans.len() < want {
        assert forall|j: int|
            0 <= j < w.len() && bytes_of_key((#[trigger] w[j]).0) != self_id && (w[j].1.peer_addr.ip is V4) == v4
                && (request.bytes_left.0 != 0 || w[j].1.left.0 != 0) implies ans.contains(answered_addr(w[j].1.peer_addr)) by {
            let x = (bytes_of_key(w[j].0), w[j].1.peer_addr);
            if w[j].1.is_seed() {
                assert(sp.contains(x));
                let k = choose|k: int| 0 <= k < sp.len() && sp[k] == x;
                assert(pair_views(seeds)[k] == (seeds[k].0@, seeds[k].1));
                assert(eligible(seeds[k], self_id, v4));
                assert(first.contains(answered_addr(seeds[k].1)));
                let m = choose|m: int| 0 <= m < first.len() && first[m] == answered_addr(seeds[k].1);
                assert(ans[m] == first[m]);
            } else {
                assert(op.contains(x));
                let k = choose|k: int| 0 <= k < op.len() && op[k] == x;
                assert(pair_views(others)[k] == (others[k].0@, others[k].1));
                assert(eligible(others[k], self_id, v4));
            }
        }
    }
    // A downloading peer gets a seeder first when there is one to offer.
    if request.bytes_left.0 != 0 && (exists|j: int|
        0 <= j < w.len() && (#[trigger] w[j]).1.left.0 == 0 && bytes_of_key(w[j].0) != self_id
            && (w[j].1.peer_addr.ip is V4) == v4) {
        let j = choose|j: int|
            0 <= j < w.len() && (#[trigger] w[j]).1.left.0 == 0 && bytes_of_key(w[j].0) != self_id
                && (w[j].1.peer_addr.ip is V4) == v4;
        let x = (bytes_of_key(w[j].0), w[j].1.peer_addr);
        assert(sp.contains(x));
        let k = choose|k: int| 0 <= k < sp.len() && sp[k] == x;
        assert(pair_views(seeds)[k] == (seeds[k].0@, seeds[k].1));
        assert(eligible(seeds[k], self_id, v4));
        assert(first.len() >= 1) by {
            if first.len() == 0 {
                assert(first.contains(answered_addr(seeds[k].1)));
            }
        }
        assert(ans[0] == first[0]);
        assert(offered_from(seeds, self_id, v4, first[0]));
        let k2 = choose|k2: int| 0 <= k2 < seeds.len() && eligible(seeds[k2], self_id, v4)
            && #[trigger] answered_addr(seeds[k2].1) == first[0];
        assert(pair_views(seeds)[k2] == (seeds[k2].0@, seeds[k2].1));
        assert(in_walk(w, true, v4, sp[k2]));
        let j2 = choose|j2: int|
            0 <= j2 < w.len() && (#[trigger] w[j2]).1.is_seed() == true && (w[j2].1.peer_addr.ip is V4) == v4
                && (bytes_of_key(w[j2].0), w[j2].1.peer_addr) == sp[k2];
        assert(answered_addr(w[j2].1.peer_addr) == ans[0]);
    }
}

/// Answers an announce that passed its checks, given the swarm after the
/// announce: the interval, the totals (cut to 32 bits), and the chosen
/// peers, in the format of the address family that the announce speaks
/// for; counted by the family of the sender.
pub fn announce_response(
    config: &AnnounceConfig,
    remote_addr: &SocketAddr,
    effective: &SocketAddr,
    request: &AnnounceRequest,
    swarm: &AnnounceSwarm,
) -> (r: (Response, UdpEvent))
    ensures
        ({
            let ps = answer_peers(*request, *effective, *swarm);
            let interval = config.request_interval as i32;
            let leechers = swarm.total_peers as i32;
            let seeders = swarm.total_seeds as i32;
            &&& effective.ip is V6 ==> r.0@ == (crate::udp::response::ResponseModel::AnnounceIpv6 {
                transaction_id: request.transaction_id.0,
                announce_interval: interval,
                leechers,
                seeders,
                peers: ps,
            })
            &&& effective.ip is V4 ==> r.0@ == (crate::udp::response::ResponseModel::AnnounceIpv4 {
                transaction_id: request.transaction_id.0,
                announce_interval: interval,
                leechers,
                seeders,
                peers: ps,
            })
            &&& r.1 == (if remote_addr.ip is V4 {
                UdpEvent::Udp4AnnouncesHandled
            } else {
                UdpEvent::Udp6AnnouncesHandled
            })
        }),
{
    let want = wanted_peers(request.peers_wanted.0);
    let self_peer_id = request.peer_id;
    let mut peers: Vec<ResponsePeer<Ipv4Addr>> = Vec::new();
    let mut peers6: Vec<ResponsePeer<Ipv6Addr>> = Vec::new();
    let ghost e4: Seq<(Seq<u8>, u16)> = Seq::empty();
    assert(v4_peers(peers@) =~= e4);
    assert(v6_peers(peers6@) =~= e4);
    if request.bytes_left.0 != 0 {
        if effective.is_ipv4() {
            pick_v4(&swarm.seeds, &self_peer_id, want, &mut peers);
        } else {
            pick_v6(&swarm.seeds_ipv6, &self_peer_id, want, &mut peers6);
        }
    }
    proof {
        lemma_pick_len(swarm.seeds@, self_peer_id@, want as int, e4, true);
        lemma_pick_len(swarm.seeds_ipv6@, self_peer_id@, want as int, e4, false);
    }
    if effective.is_ipv4() {
        pick_v4(&swarm.peers, &self_peer_id, want, &mut peers);
    } else {
        pick_v6(&swarm.peers_ipv6, &self_peer_id, want, &mut peers6);
    }
    let request_interval = config.request_interval as i32;
    let leechers = swarm.total_peers as i32;
    let seeders = swarm.total_seeds as i32;
    let response = if effective.is_ipv6() {
        Response::AnnounceIpv6(
            AnnounceResponse {
                transaction_id: request.transaction_id,
                announce_interval: AnnounceInterval(request_interval),
                leechers: NumberOfPeers(leechers),
                seeders: NumberOfPeers(seeders),
                peers: peers6,
            },
        )
    } else {
        Response::AnnounceIpv4(
            AnnounceResponse {
                transaction_id: request.transaction_id,
                announce_interval: AnnounceInterval(request_interval),
                leechers: NumberOfPeers(leechers),
                seeders: NumberOfPeers(seeders),
                peers,
            },
        )
    };
    let event = if remote_addr.is_ipv4() {
        UdpEvent::Udp4AnnouncesHandled
    } else {
        UdpEvent::Udp6AnnouncesHandled
    };
    (response, event)
}


/// The statistics of one torrent as a scrape gives them: its counters cut
/// to 32 bits, or zeros for a torrent the tracker does not have.
pub open spec fn scrape_entry_of(m: TrackerModel, h: Seq<u8>) -> TorrentScrapeStatistics {
    let k = key_of(h);
    if m.torrents.contains_key(k) {
        TorrentScrapeStatistics {
            seeders: NumberOfPeers(m.torrents[k].seeders as i32),
            completed: NumberOfDownloads(m.torrents[k].completed as i32),
            leechers: NumberOfPeers(m.torrents[k].leechers as i32),
        }
    } else {
        TorrentScrapeStatistics {
            seeders: NumberOfPeers(0),
            completed: NumberOfDownloads(0),
            leechers: NumberOfPeers(0),
        }
    }
}

/// A scrape reports a torrent that the tracker knows with its own seeders,
/// completed downloads and leechers, cut to 32 bits, and one it does not
/// know with zeros. Where each torrent's counters match its peers, the
/// seeders and leechers reported are the numbers of its seeding and
/// leeching peers.
pub proof fn lemma_scrape_reports_counters(m: TrackerModel, h: Seq<u8>)
    ensures
        ({
            let e = scrape_entry_of(m, h);
            let k = key_of(h);
            &&& m.torrents.contains_key(k) ==> {
                &&& e.seeders.0 == m.torrents[k].seeders as i32
                &&& e.completed.0 == m.torrents[k].completed as i32
                &&& e.leechers.0 == m.torrents[k].leechers as i32
            }
            &&& !m.torrents.contains_key(k) ==> e.seeders.0 == 0 && e.completed.0 == 0 && e.leechers.0 == 0
            &&& m.torrents.contains_key(k) && counts_match(m.torrents, m.peers) ==> {
                &&& e.seeders.0 == seeders_of(model_peers(m.peers, k)) as i32
                &&& e.leechers.0 == leechers_of(model_peers(m.peers, k)) as i32
            }
        }),
{
}

/// Answers a scrape: refused without a valid connection id; else the
/// statistics of each asked torrent in the order asked, counted by the
/// family of the sender.
pub fn handle_udp_scrape(
    tracker: &TorrentTracker,
    key: &ConnectionIdKey,
    now: u64,
    remote_addr: &SocketAddr,
    request: &ScrapeRequest,
) -> (r: Result<(Response, UdpEvent), ServerError>)
    ensures
        !id_valid_at(key@, *remote_addr, request.connection_id.0, now) ==> r == Err::<(Response, UdpEvent), ServerError>(ServerError::InvalidConnectionId),
        id_valid_at(key@, *remote_addr, request.connection_id.0, now) ==> (r matches Ok(p) && {
            &&& p.0@ == (crate::udp::response::ResponseModel::Scrape {
                transaction_id: request.transaction_id.0,
                torrent_stats: Seq::new(request.info_hashes@.len(), |i: int| scrape_entry_of(tracker@, request.info_hashes@[i]@)),
            })
            &&& p.1 == (if remote_addr.ip is V4 {
                UdpEvent::Udp4ScrapesHandled
            } else {
                UdpEvent::Udp6ScrapesHandled
            })
        }),
{
    if !connection_id_valid(key, remote_addr, request.connection_id, now) {
        return Err(ServerError::InvalidConnectionId);
    }
    let mut torrent_stats: Vec<TorrentScrapeStatistics> = Vec::new();
    let mut i: usize = 0;
    while i < request.info_hashes.len()
        invariant
            i <= request.info_hashes@.len(),
            torrent_stats@.len() == i,
            forall|j: int| 0 <= j < i ==> #[trigger] torrent_stats@[j] == scrape_entry_of(tracker@, request.info_hashes@[j]@),
        decreases request.info_hashes@.len() - i,
    {
        let h = request.info_hashes[i];
        let k = crate::tracker::keyed::hash_key(&h.0);
        let item: Option<TorrentEntryItem> = match tracker.torrents.get(&k) {
            Some(t) => Some(*t),
            None => None,
        };
        let entry = match item {
            Some(t) => TorrentScrapeStatistics {
                seeders: NumberOfPeers(t.seeders as i32),
                completed: NumberOfDownloads(t.completed as i32),
                leechers: NumberOfPeers(t.leechers as i32),
            },
            None => TorrentScrapeStatistics {
                seeders: NumberOfPeers(0),
                completed: NumberOfDownloads(0),
                leechers: NumberOfPeers(0),
            },
        };
        torrent_stats.push(entry);
        i = i + 1;
    }
    let ghost expected = Seq::new(request.info_hashes@.len(), |i: int| scrape_entry_of(tracker@, request.info_hashes@[i]@));
    assert(torrent_stats@ =~= expected);
    let event = if remote_addr.is_ipv4() {
        UdpEvent::Udp4ScrapesHandled
    } else {
        UdpEvent::Udp6ScrapesHandled
    };
    Ok((Response::Scrape(crate::udp::response::ScrapeResponse { transaction_id: request.transaction_id, torrent_stats }), event))
}

/// What a datagram calls for: a connect on the fast path, a parsed request,
/// or nothing parseable.
pub enum PacketPlan {
    Connect(ConnectRequest),
    Handle(Request),
    Bad,
}

/// Whether a datagram takes the fast path for connects: 16 bytes with zeros
/// at positions 4 to 7, parsing as a connect.
pub open spec fn fast_connect(payload: Seq<u8>) -> bool {
    &&& payload.len() == 16
    &&& payload[4] == 0 && payload[5] == 0 && payload[6] == 0 && payload[7] == 0
    &&& parse_request(payload, MAX_SCRAPE_TORRENTS) matches Ok(RequestModel::Connect { .. })
}

/// Decides what a datagram calls for.
pub fn plan_packet(payload: &[u8]) -> (r: PacketPlan)
    ensures
        match r {
            PacketPlan::Connect(c) => fast_connect(payload@) && parse_request(payload@, MAX_SCRAPE_TORRENTS)
                == Ok::<RequestModel, crate::udp::request::RequestParseError>(RequestModel::Connect { transaction_id: c.transaction_id.0 }),
            PacketPlan::Handle(req) => !fast_connect(payload@) && parse_request(payload@, MAX_SCRAPE_TORRENTS)
                == Ok::<RequestModel, crate::udp::request::RequestParseError>(req@),
            PacketPlan::Bad => parse_request(payload@, MAX_SCRAPE_TORRENTS) is Err,
        },
{
    if payload.len() == 16 && payload[4] == 0 && payload[5] == 0 && payload[6] == 0 && payload[7] == 0 {
        if let Ok(Request::Connect(c)) = Request::from_bytes(payload, MAX_SCRAPE_TORRENTS) {
            return PacketPlan::Connect(c);
        }
    }
    match Request::from_bytes(payload, MAX_SCRAPE_TORRENTS) {
        Ok(req) => PacketPlan::Handle(req),
        Err(_) => PacketPlan::Bad,
    }
}

/// The transaction id of a request.
pub fn request_transaction_id(request: &Request) -> (r: TransactionId)
    ensures
        r.0 == match request@ {
            RequestModel::Connect { transaction_id } => transaction_id,
            RequestModel::Announce(a) => a.transaction_id,
            RequestModel::Scrape { transaction_id, .. } => transaction_id,
        },
{
    match request {
        Request::Connect(c) => c.transaction_id,
        Request::Announce(a) => a.transaction_id,
        Request::Scrape(s) => s.transaction_id,
    }
}

/// The answer to a request that a handler refused: a "bad request" error
/// under the request's transaction id, whatever the refusal was, counted as
/// an invalid request of the sender's family.
pub fn refused_request_reply(remote_addr: &SocketAddr, transaction_id: TransactionId) -> (r: (Response, UdpEvent))
    ensures
        r.0@ == (crate::udp::response::ResponseModel::Error {
            transaction_id: transaction_id.0,
            message: server_error_text(ServerError::BadRequest),
        }),
        r.1 == (if remote_addr.ip is V4 { UdpEvent::Udp4InvalidRequest } else { UdpEvent::Udp6InvalidRequest }),
{
    let event = if remote_addr.is_ipv4() {
        UdpEvent::Udp4InvalidRequest
    } else {
        UdpEvent::Udp6InvalidRequest
    };
    (handle_udp_error(ServerError::BadRequest, transaction_id), event)
}

/// The answer to a datagram that does not parse: a "bad request" error
/// under transaction id 0, counted as a bad request of the sender's family.
pub fn bad_packet_reply(remote_addr: &SocketAddr) -> (r: (Response, UdpEvent))
    ensures
        r.0@ == (crate::udp::response::ResponseModel::Error {
            transaction_id: 0,
            message: server_error_text(ServerError::BadRequest),
        }),
        r.1 == (if remote_addr.ip is V4 { UdpEvent::Udp4BadRequest } else { UdpEvent::Udp6BadRequest }),
{
    let event = if remote_addr.is_ipv4() {
        UdpEvent::Udp4BadRequest
    } else {
        UdpEvent::Udp6BadRequest
    };
    (handle_udp_error(ServerError::BadRequest, TransactionId(0)), event)
}

} // verus!
