//! BEP 15 requests: their byte layout, parsing and writing.

use vstd::prelude::*;
use vstd::utf8::{valid_utf8, decode_utf8};
use crate::codec::{
    IoError, lemma_i32_at, lemma_i64_at, lemma_u16_at, lemma_u32_at, put_bytes, put_i32, put_i64, put_u16, put_u32, array20, array4, get_i32, get_i64, get_u16, get_u32, i32_at, i32_be_bytes, i64_at,
    i64_be_bytes, u16_at, u16_be_bytes, u32_at, u32_be_bytes, utf8_to_string,
};
use crate::net::Ipv4Addr;
use crate::udp::types::{
    AnnounceEvent, ConnectionId, InfoHash, NumberOfBytes, NumberOfPeers, PeerId, PeerKey, Port,
    TransactionId, announce_event_number, announce_event_of,
};

verus! {

/// The magic number that opens every connect request.
pub const PROTOCOL_IDENTIFIER: i64 = 4_497_486_125_440;

/// Bytes up to and including the port of an announce request.
pub const ANNOUNCE_FIXED_LEN: usize = 98;

#[derive(PartialEq, Eq, Clone, Copy, Debug)]
pub struct ConnectRequest {
    pub transaction_id: TransactionId,
}

#[derive(PartialEq, Eq, Clone, Debug)]
pub struct AnnounceRequest {
    pub connection_id: ConnectionId,
    pub transaction_id: TransactionId,
    pub info_hash: InfoHash,
    pub peer_id: PeerId,
    pub bytes_downloaded: NumberOfBytes,
    pub bytes_uploaded: NumberOfBytes,
    pub bytes_left: NumberOfBytes,
    pub event: AnnounceEvent,
    pub ip_address: Option<Ipv4Addr>,
    pub key: PeerKey,
    pub peers_wanted: NumberOfPeers,
    pub port: Port,
    /// The request path carried in a BEP 41 URL-data option, or empty.
    pub path: String,
}

#[derive(PartialEq, Eq, Clone, Debug)]
pub struct ScrapeRequest {
    pub connection_id: ConnectionId,
    pub transaction_id: TransactionId,
    pub info_hashes: Vec<InfoHash>,
}

#[derive(PartialEq, Eq, Clone, Debug)]
pub enum Request {
    Connect(ConnectRequest),
    Announce(AnnounceRequest),
    Scrape(ScrapeRequest),
}

/// An announce request as plain values.
#[verifier::ext_equal]
pub struct AnnounceModel {
    pub connection_id: i64,
    pub transaction_id: i32,
    pub info_hash: Seq<u8>,
    pub peer_id: Seq<u8>,
    pub bytes_downloaded: i64,
    pub bytes_uploaded: i64,
    pub bytes_left: i64,
    pub event: AnnounceEvent,
    pub ip_address: Option<Seq<u8>>,
    pub key: u32,
    pub peers_wanted: i32,
    pub port: u16,
    pub path: Seq<char>,
}

/// A request as plain values.
#[verifier::ext_equal]
pub enum RequestModel {
    Connect { transaction_id: i32 },
    Announce(AnnounceModel),
    Scrape { connection_id: i64, transaction_id: i32, info_hashes: Seq<Seq<u8>> },
}

impl View for AnnounceRequest {
    type V = AnnounceModel;

    open spec fn view(&self) -> AnnounceModel {
        AnnounceModel {
            connection_id: self.connection_id.0,
            transaction_id: self.transaction_id.0,
            info_hash: self.info_hash@,
            peer_id: self.peer_id@,
            bytes_downloaded: self.bytes_downloaded.0,
            bytes_uploaded: self.bytes_uploaded.0,
            bytes_left: self.bytes_left.0,
            event: self.event,
            ip_address: match self.ip_address {
                Some(ip) => Some(ip.octets@),
                None => None,
            },
            key: self.key.0,
            peers_wanted: self.peers_wanted.0,
            port: self.port.0,
            path: self.path@,
        }
    }
}

impl View for Request {
    type V = RequestModel;

    open spec fn view(&self) -> RequestModel {
        match self {
            Request::Connect(r) => RequestModel::Connect { transaction_id: r.transaction_id.0 },
            Request::Announce(r) => RequestModel::Announce(r@),
            Request::Scrape(r) => RequestModel::Scrape {
                connection_id: r.connection_id.0,
                transaction_id: r.transaction_id.0,
                info_hashes: r.info_hashes@.map_values(|h: InfoHash| h@),
            },
        }
    }
}

/// Why a request could not be parsed.
#[derive(PartialEq, Eq, Clone, Copy, Debug)]
pub enum ParseFailure {
    Io(IoError),
    PacketTooShort,
    ProtocolIdentifierMissing,
    FullScrapesNotAllowed,
    InvalidInfoHashFormat,
    InvalidAction,
}

/// The text of a parse failure, as sent to the client.
pub open spec fn parse_failure_text(f: ParseFailure) -> Seq<char> {
    match f {
        ParseFailure::Io(e) => crate::codec::io_error_text(e),
        ParseFailure::PacketTooShort => "Packet too short"@,
        ParseFailure::ProtocolIdentifierMissing => "Protocol identifier missing"@,
        ParseFailure::FullScrapesNotAllowed => "Full scrapes are not allowed"@,
        ParseFailure::InvalidInfoHashFormat => "Invalid info hash format"@,
        ParseFailure::InvalidAction => "Invalid action"@,
    }
}

impl ParseFailure {
    /// The text of the failure, as sent to the client.
    pub fn message(&self) -> (r: &'static str)
        ensures
            r@ == parse_failure_text(*self),
    {
        match self {
            ParseFailure::Io(e) => e.message(),
            ParseFailure::PacketTooShort => "Packet too short",
            ParseFailure::ProtocolIdentifierMissing => "Protocol identifier missing",
            ParseFailure::FullScrapesNotAllowed => "Full scrapes are not allowed",
            ParseFailure::InvalidInfoHashFormat => "Invalid info hash format",
            ParseFailure::InvalidAction => "Invalid action",
        }
    }
}

/// A parse failure, with the ids needed to answer it when they were read.
#[derive(PartialEq, Eq, Clone, Copy, Debug)]
pub enum RequestParseError {
    Sendable { connection_id: ConnectionId, transaction_id: TransactionId, err: ParseFailure },
    Unsendable { err: ParseFailure },
}

impl RequestParseError {
    /// An I/O failure that can still be answered.
    pub fn sendable_io(err: IoError, connection_id: i64, transaction_id: i32) -> (r: Self)
        ensures
            r == (RequestParseError::Sendable {
                connection_id: ConnectionId(connection_id),
                transaction_id: TransactionId(transaction_id),
                err: ParseFailure::Io(err),
            }),
    {
        Self::Sendable {
            connection_id: ConnectionId(connection_id),
            transaction_id: TransactionId(transaction_id),
            err: ParseFailure::Io(err),
        }
    }

    /// A described failure that can still be answered.
    pub fn sendable_text(text: ParseFailure, connection_id: i64, transaction_id: i32) -> (r: Self)
        ensures
            r == (RequestParseError::Sendable {
                connection_id: ConnectionId(connection_id),
                transaction_id: TransactionId(transaction_id),
                err: text,
            }),
    {
        Self::Sendable {
            connection_id: ConnectionId(connection_id),
            transaction_id: TransactionId(transaction_id),
            err: text,
        }
    }

    /// An I/O failure that cannot be answered.
    pub fn unsendable_io(err: IoError) -> (r: Self)
        ensures
            r == (RequestParseError::Unsendable { err: ParseFailure::Io(err) }),
    {
        Self::Unsendable { err: ParseFailure::Io(err) }
    }

    /// A described failure that cannot be answered.
    pub fn unsendable_text(text: ParseFailure) -> (r: Self)
        ensures
            r == (RequestParseError::Unsendable { err: text }),
    {
        Self::Unsendable { err: text }
    }
}

/// The path carried after the fixed announce fields: option byte 2, a length
/// byte, then that many bytes of UTF-8. Anything else gives the empty path.
pub open spec fn announce_path(b: Seq<u8>) -> Seq<char> {
    if b.len() >= 100 && b[98] == 2 && 100 + b[99] <= b.len() && valid_utf8(
        b.subrange(100, 100 + b[99]),
    ) {
        decode_utf8(b.subrange(100, 100 + b[99]))
    } else {
        Seq::empty()
    }
}

/// The announce request at the start of `b`, which holds at least 98 bytes.
pub open spec fn announce_of(b: Seq<u8>) -> AnnounceModel {
    AnnounceModel {
        connection_id: i64_at(b, 0),
        transaction_id: i32_at(b, 12),
        info_hash: b.subrange(16, 36),
        peer_id: b.subrange(36, 56),
        bytes_downloaded: i64_at(b, 56),
        bytes_left: i64_at(b, 64),
        bytes_uploaded: i64_at(b, 72),
        event: announce_event_of(i32_at(b, 80)),
        ip_address: if b.subrange(84, 88) == seq![0u8, 0u8, 0u8, 0u8] {
            None
        } else {
            Some(b.subrange(84, 88))
        },
        key: u32_at(b, 88),
        peers_wanted: i32_at(b, 92),
        port: u16_at(b, 96),
        path: announce_path(b),
    }
}

/// How many info-hashes a scrape request carries: whole 20-byte blocks after
/// the header, at most `max`.
pub open spec fn scrape_count(b: Seq<u8>, max: u8) -> int {
    let available = (b.len() - 16) / 20;
    if available < max as int {
        available
    } else {
        max as int
    }
}

/// The `n` info-hashes that follow the 16-byte header.
pub open spec fn scrape_hashes(b: Seq<u8>, n: int) -> Seq<Seq<u8>> {
    Seq::new(n as nat, |i: int| b.subrange(16 + 20 * i, 36 + 20 * i))
}

/// What parsing the datagram `b` gives, with at most `max` scraped hashes.
pub open spec fn parse_request(b: Seq<u8>, max: u8) -> Result<RequestModel, RequestParseError> {
    if b.len() < 16 {
        Err(RequestParseError::Unsendable { err: ParseFailure::PacketTooShort })
    } else {
        let connection_id = i64_at(b, 0);
        let action = i32_at(b, 8);
        let transaction_id = i32_at(b, 12);
        let sendable = |err: ParseFailure|
            RequestParseError::Sendable {
                connection_id: ConnectionId(connection_id),
                transaction_id: TransactionId(transaction_id),
                err,
            };
        if action == 0 {
            if connection_id == PROTOCOL_IDENTIFIER {
                Ok(RequestModel::Connect { transaction_id })
            } else {
                Err(RequestParseError::Unsendable { err: ParseFailure::ProtocolIdentifierMissing })
            }
        } else if action == 1 {
            if b.len() < 98 {
                Err(sendable(ParseFailure::Io(IoError::UnexpectedEof)))
            } else {
                Ok(RequestModel::Announce(announce_of(b)))
            }
        } else if action == 2 {
            if scrape_count(b, max) == 0 {
                Err(sendable(ParseFailure::FullScrapesNotAllowed))
            } else {
                Ok(
                    RequestModel::Scrape {
                        connection_id,
                        transaction_id,
                        info_hashes: scrape_hashes(b, scrape_count(b, max)),
                    },
                )
            }
        } else {
            Err(sendable(ParseFailure::InvalidAction))
        }
    }
}

/// The bytes of `hs`, one after the other.
pub open spec fn concat_all(hs: Seq<Seq<u8>>) -> Seq<u8>
    decreases hs.len(),
{
    if hs.len() == 0 {
        Seq::empty()
    } else {
        concat_all(hs.drop_last()) + hs.last()
    }
}

/// The four octets written for an optional address; none is written as zeros.
pub open spec fn ip_field(ip: Option<Seq<u8>>) -> Seq<u8> {
    match ip {
        Some(o) => o,
        None => seq![0u8, 0u8, 0u8, 0u8],
    }
}

/// The bytes that writing the request `m` produces.
pub open spec fn request_bytes(m: RequestModel) -> Seq<u8> {
    match m {
        RequestModel::Connect { transaction_id } => i64_be_bytes(PROTOCOL_IDENTIFIER)
            + i32_be_bytes(0) + i32_be_bytes(transaction_id),
        RequestModel::Announce(a) => i64_be_bytes(a.connection_id) + i32_be_bytes(1)
            + i32_be_bytes(a.transaction_id) + a.info_hash + a.peer_id + i64_be_bytes(
            a.bytes_downloaded,
        ) + i64_be_bytes(a.bytes_left) + i64_be_bytes(a.bytes_uploaded) + i32_be_bytes(
            announce_event_number(a.event),
        ) + ip_field(a.ip_address) + u32_be_bytes(a.key) + i32_be_bytes(a.peers_wanted)
            + u16_be_bytes(a.port),
        RequestModel::Scrape { connection_id, transaction_id, info_hashes } => i64_be_bytes(
            connection_id,
        ) + i32_be_bytes(2) + i32_be_bytes(transaction_id) + concat_all(info_hashes),
    }
}

/// Parses the announce body at the start of `bytes`, which holds at least 98
/// bytes.
fn parse_announce(bytes: &[u8]) -> (r: AnnounceRequest)
    requires
        bytes@.len() >= 98,
    ensures
        r@ == announce_of(bytes@),
{
    let connection_id = get_i64(bytes, 0);
    let transaction_id = get_i32(bytes, 12);
    let info_hash = array20(bytes, 16);
    let peer_id = array20(bytes, 36);
    let bytes_downloaded = get_i64(bytes, 56);
    let bytes_left = get_i64(bytes, 64);
    let bytes_uploaded = get_i64(bytes, 72);
    let event = get_i32(bytes, 80);
    let ip = array4(bytes, 84);
    let key = get_u32(bytes, 88);
    let peers_wanted = get_i32(bytes, 92);
    let port = get_u16(bytes, 96);
    let opt_ip = if ip[0] == 0 && ip[1] == 0 && ip[2] == 0 && ip[3] == 0 {
        assert(ip@ =~= seq![0u8, 0u8, 0u8, 0u8]);
        None
    } else {
        assert(ip@ != seq![0u8, 0u8, 0u8, 0u8]) by {
            if ip@ == seq![0u8, 0u8, 0u8, 0u8] {
                assert(ip@[0] == 0 && ip@[1] == 0 && ip@[2] == 0 && ip@[3] == 0);
            }
        }
        Some(Ipv4Addr { octets: ip })
    };
    let path = parse_path(bytes);
    AnnounceRequest {
        connection_id: ConnectionId(connection_id),
        transaction_id: TransactionId(transaction_id),
        info_hash: InfoHash(info_hash),
        peer_id: PeerId(peer_id),
        bytes_downloaded: NumberOfBytes(bytes_downloaded),
        bytes_uploaded: NumberOfBytes(bytes_uploaded),
        bytes_left: NumberOfBytes(bytes_left),
        event: AnnounceEvent::from_i32(event),
        ip_address: opt_ip,
        key: PeerKey(key),
        peers_wanted: NumberOfPeers(peers_wanted),
        port: Port(port),
        path,
    }
}

/// Reads the URL-data option that may follow the fixed announce fields.
fn parse_path(bytes: &[u8]) -> (r: String)
    requires
        bytes@.len() >= 98,
    ensures
        r@ == announce_path(bytes@),
{
    if bytes.len() >= 100 && bytes[98] == 2 && 100 + (bytes[99] as usize) <= bytes.len() {
        let size = bytes[99] as usize;
        let text = slice_subrange(bytes, 100, 100 + size);
        match utf8_to_string(text.as_slice()) {
            Some(s) => s,
            None => String::new(),
        }
    } else {
        String::new()
    }
}

/// The bytes of `s` from `start` up to `end`.
pub fn slice_subrange(s: &[u8], start: usize, end: usize) -> (r: Vec<u8>)
    requires
        start <= end <= s@.len(),
    ensures
        r@ == s@.subrange(start as int, end as int),
{
    let mut out: Vec<u8> = Vec::with_capacity(end - start);
    let mut i = start;
    while i < end
        invariant
            start <= i <= end,
            end <= s@.len(),
            out@ == s@.subrange(start as int, i as int),
        decreases end - i,
    {
        out.push(s[i]);
        i = i + 1;
        assert(out@ =~= s@.subrange(start as int, i as int));
    }
    out
}

/// Reads the info-hashes of a scrape request.
fn parse_scrape_hashes(bytes: &[u8], n: usize) -> (r: Vec<InfoHash>)
    requires
        16 + 20 * n <= bytes@.len(),
    ensures
        r@.map_values(|h: InfoHash| h@) == scrape_hashes(bytes@, n as int),
{
    let mut hashes: Vec<InfoHash> = Vec::with_capacity(n);
    let mut i: usize = 0;
    while i < n
        invariant
            i <= n,
            16 + 20 * n <= bytes.len(),
            hashes@.len() == i,
            forall|j: int|
                0 <= j < i ==> #[trigger] hashes@[j]@ == bytes@.subrange(16 + 20 * j, 36 + 20 * j),
        decreases n - i,
    {
        assert(16 + 20 * i + 20 <= bytes.len()) by (nonlinear_arith)
            requires
                i < n,
                16 + 20 * n <= bytes.len(),
        ;
        let h = array20(bytes, 16 + 20 * i);
        hashes.push(InfoHash(h));
        i = i + 1;
    }
    assert(hashes@.map_values(|h: InfoHash| h@) =~= scrape_hashes(bytes@, n as int));
    hashes
}

impl Request {
    /// Parses a BEP 15 request datagram, taking at most `max_scrape_torrents`
    /// info-hashes from a scrape.
    pub fn from_bytes(bytes: &[u8], max_scrape_torrents: u8) -> (res: Result<Self, RequestParseError>)
        ensures
            match res {
                Ok(r) => parse_request(bytes@, max_scrape_torrents) == Ok::<
                    RequestModel,
                    RequestParseError,
                >(r@),
                Err(e) => parse_request(bytes@, max_scrape_torrents) == Err::<
                    RequestModel,
                    RequestParseError,
                >(e),
            },
    {
        if bytes.len() < 16 {
            return Err(RequestParseError::unsendable_text(ParseFailure::PacketTooShort));
        }
        let connection_id = get_i64(bytes, 0);
        let action = get_i32(bytes, 8);
        let transaction_id = get_i32(bytes, 12);
        if action == 0 {
            if connection_id == PROTOCOL_IDENTIFIER {
                return Ok(Request::Connect(ConnectRequest { transaction_id: TransactionId(transaction_id) }));
            } else {
                return Err(RequestParseError::unsendable_text(ParseFailure::ProtocolIdentifierMissing));
            }
        }
        if action == 1 {
            if bytes.len() < ANNOUNCE_FIXED_LEN {
                return Err(
                    RequestParseError::sendable_io(IoError::UnexpectedEof, connection_id, transaction_id),
                );
            }
            Ok(Request::Announce(parse_announce(bytes)))
        } else if action == 2 {
            let max_hashes = max_scrape_torrents as usize;
            let available_hashes = (bytes.len() - 16) / 20;
            let actual_hashes = if available_hashes < max_hashes {
                available_hashes
            } else {
                max_hashes
            };
            if actual_hashes == 0 {
                return Err(
                    RequestParseError::sendable_text(
                        ParseFailure::FullScrapesNotAllowed,
                        connection_id,
                        transaction_id,
                    ),
                );
            }
            assert(16 + 20 * actual_hashes <= bytes@.len()) by (nonlinear_arith)
                requires
                    actual_hashes <= available_hashes,
                    available_hashes == (bytes@.len() - 16) / 20,
                    bytes@.len() >= 16,
            ;
            let info_hashes = parse_scrape_hashes(bytes, actual_hashes);
            Ok(
                Request::Scrape(
                    ScrapeRequest {
                        connection_id: ConnectionId(connection_id),
                        transaction_id: TransactionId(transaction_id),
                        info_hashes,
                    },
                ),
            )
        } else {
            Err(RequestParseError::sendable_text(ParseFailure::InvalidAction, connection_id, transaction_id))
        }
    }
}


/// The byte length of `concat_all(hs)` when every element has 20 bytes, and
/// where each element stands in it.
pub proof fn lemma_concat_all_blocks(hs: Seq<Seq<u8>>)
    requires
        forall|i: int| 0 <= i < hs.len() ==> #[trigger] hs[i].len() == 20,
    ensures
        concat_all(hs).len() == 20 * hs.len(),
        forall|i: int|
            0 <= i < hs.len() ==> #[trigger] concat_all(hs).subrange(20 * i, 20 * i + 20) == hs[i],
    decreases hs.len(),
{
    if hs.len() > 0 {
        let init = hs.drop_last();
        lemma_concat_all_blocks(init);
        let c = concat_all(hs);
        assert(c == concat_all(init) + hs.last());
        assert forall|i: int| 0 <= i < hs.len() implies #[trigger] c.subrange(20 * i, 20 * i + 20) == hs[i] by {
            if i < hs.len() - 1 {
                assert(init[i] == hs[i]);
                assert(c.subrange(20 * i, 20 * i + 20) =~= concat_all(init).subrange(20 * i, 20 * i + 20));
            } else {
                assert(c.subrange(20 * i, 20 * i + 20) =~= hs.last());
            }
        }
    }
}

/// Whether `m` could have come from a request value: 20-byte hashes and ids,
/// 4-byte addresses.
pub open spec fn request_model_wf(m: RequestModel) -> bool {
    match m {
        RequestModel::Connect { .. } => true,
        RequestModel::Announce(a) => {
            &&& a.info_hash.len() == 20
            &&& a.peer_id.len() == 20
            &&& a.ip_address matches Some(o) ==> o.len() == 4
        },
        RequestModel::Scrape { info_hashes, .. } => forall|i: int|
            0 <= i < info_hashes.len() ==> #[trigger] info_hashes[i].len() == 20,
    }
}

proof fn lemma_connect_write_then_parse(transaction_id: i32, max: u8)
    ensures
        parse_request(request_bytes(RequestModel::Connect { transaction_id }), max) == Ok::<
            RequestModel,
            RequestParseError,
        >(RequestModel::Connect { transaction_id }),
{
    let b = request_bytes(RequestModel::Connect { transaction_id });
    assert(b.subrange(0, 8) =~= i64_be_bytes(PROTOCOL_IDENTIFIER));
    assert(b.subrange(8, 12) =~= i32_be_bytes(0));
    assert(b.subrange(12, 16) =~= i32_be_bytes(transaction_id));
    lemma_i64_at(b, 0, PROTOCOL_IDENTIFIER);
    lemma_i32_at(b, 8, 0);
    lemma_i32_at(b, 12, transaction_id);
}

#[verifier::rlimit(100)]
proof fn lemma_announce_write_then_parse(a: AnnounceModel, max: u8)
    requires
        request_model_wf(RequestModel::Announce(a)),
        a.path.len() == 0,
        a.ip_address != Some(seq![0u8, 0u8, 0u8, 0u8]),
    ensures
        parse_request(request_bytes(RequestModel::Announce(a)), max) == Ok::<
            RequestModel,
            RequestParseError,
        >(RequestModel::Announce(a)),
{
    let b = request_bytes(RequestModel::Announce(a));
    let ip = ip_field(a.ip_address);
    let p0 = i64_be_bytes(a.connection_id);
    let p1 = i32_be_bytes(1);
    let p2 = i32_be_bytes(a.transaction_id);
    let p5 = i64_be_bytes(a.bytes_downloaded);
    let p6 = i64_be_bytes(a.bytes_left);
    let p7 = i64_be_bytes(a.bytes_uploaded);
    let p8 = i32_be_bytes(announce_event_number(a.event));
    let p10 = u32_be_bytes(a.key);
    let p11 = i32_be_bytes(a.peers_wanted);
    let p12 = u16_be_bytes(a.port);
    assert(b == p0 + p1 + p2 + a.info_hash + a.peer_id + p5 + p6 + p7 + p8 + ip + p10 + p11 + p12);
    assert(b.len() == 98);
    assert(b.subrange(0, 8) =~= p0);
    assert(b.subrange(8, 12) =~= p1);
    assert(b.subrange(12, 16) =~= p2);
    assert(b.subrange(16, 36) =~= a.info_hash);
    assert(b.subrange(36, 56) =~= a.peer_id);
    assert(b.subrange(56, 64) =~= p5);
    assert(b.subrange(64, 72) =~= p6);
    assert(b.subrange(72, 80) =~= p7);
    assert(b.subrange(80, 84) =~= p8);
    assert(b.subrange(84, 88) =~= ip);
    assert(b.subrange(88, 92) =~= p10);
    assert(b.subrange(92, 96) =~= p11);
    assert(b.subrange(96, 98) =~= p12);
    lemma_i64_at(b, 0, a.connection_id);
    lemma_i32_at(b, 8, 1);
    lemma_i32_at(b, 12, a.transaction_id);
    lemma_i64_at(b, 56, a.bytes_downloaded);
    lemma_i64_at(b, 64, a.bytes_left);
    lemma_i64_at(b, 72, a.bytes_uploaded);
    lemma_i32_at(b, 80, announce_event_number(a.event));
    lemma_u32_at(b, 88, a.key);
    lemma_i32_at(b, 92, a.peers_wanted);
    lemma_u16_at(b, 96, a.port);
    assert(announce_path(b) =~= a.path);
    assert(announce_of(b) =~= a);
}

#[verifier::rlimit(60)]
proof fn lemma_scrape_write_then_parse(
    connection_id: i64,
    transaction_id: i32,
    info_hashes: Seq<Seq<u8>>,
    max: u8,
)
    requires
        forall|i: int| 0 <= i < info_hashes.len() ==> #[trigger] info_hashes[i].len() == 20,
        1 <= info_hashes.len() <= max,
    ensures
        parse_request(
            request_bytes(RequestModel::Scrape { connection_id, transaction_id, info_hashes }),
            max,
        ) == Ok::<RequestModel, RequestParseError>(
            RequestModel::Scrape { connection_id, transaction_id, info_hashes },
        ),
{
    let b = request_bytes(RequestModel::Scrape { connection_id, transaction_id, info_hashes });
    lemma_concat_all_blocks(info_hashes);
    let n = info_hashes.len() as int;
    let c = concat_all(info_hashes);
    assert(b == i64_be_bytes(connection_id) + i32_be_bytes(2) + i32_be_bytes(transaction_id) + c);
    assert(b.len() == 16 + 20 * n);
    assert(b.subrange(0, 8) =~= i64_be_bytes(connection_id));
    assert(b.subrange(8, 12) =~= i32_be_bytes(2));
    assert(b.subrange(12, 16) =~= i32_be_bytes(transaction_id));
    lemma_i64_at(b, 0, connection_id);
    lemma_i32_at(b, 8, 2);
    lemma_i32_at(b, 12, transaction_id);
    assert((b.len() - 16) / 20 == n) by (nonlinear_arith)
        requires
            b.len() == 16 + 20 * n,
    ;
    assert forall|i: int| 0 <= i < n implies #[trigger] scrape_hashes(b, n)[i] == info_hashes[i] by {
        assert(b.subrange(16 + 20 * i, 36 + 20 * i) =~= c.subrange(20 * i, 20 * i + 20));
    }
    assert(scrape_hashes(b, scrape_count(b, max)) =~= info_hashes);
}

/// Parsing what writing a request produced gives the request back, for every
/// request that the format can carry: an announce without a path and without
/// the address 0.0.0.0 (both are written as nothing and as zeros), a scrape
/// with at least one and at most `max` info-hashes.
pub proof fn lemma_request_write_then_parse(m: RequestModel, max: u8)
    requires
        request_model_wf(m),
        m matches RequestModel::Announce(a) ==> a.path.len() == 0 && a.ip_address != Some(
            seq![0u8, 0u8, 0u8, 0u8],
        ),
        m matches RequestModel::Scrape { info_hashes, .. } ==> 1 <= info_hashes.len() <= max,
    ensures
        parse_request(request_bytes(m), max) == Ok::<RequestModel, RequestParseError>(m),
{
    match m {
        RequestModel::Connect { transaction_id } => {
            lemma_connect_write_then_parse(transaction_id, max);
        },
        RequestModel::Announce(a) => {
            lemma_announce_write_then_parse(a, max);
        },
        RequestModel::Scrape { connection_id, transaction_id, info_hashes } => {
            lemma_scrape_write_then_parse(connection_id, transaction_id, info_hashes, max);
        },
    }
}

/// An announce datagram's fields sit where BEP 15 puts them, each a
/// big-endian integer: the connection id at bytes 0..8, the transaction id
/// at 12..16, the info-hash at 16..36, the peer id at 36..56, downloaded at
/// 56..64, left at 64..72, uploaded at 72..80, the event at 80..84 (0 none,
/// 1 completed, 2 started, 3 stopped, any other number none), the key at
/// 88..92, the number of peers wanted at 92..96 and the port at 96..98.
pub proof fn lemma_announce_read_offsets(b: Seq<u8>, max: u8)
    requires
        b.len() >= 98,
        i32_at(b, 8) == 1,
    ensures
        parse_request(b, max) matches Ok(RequestModel::Announce(a)) && {
            &&& a.connection_id == i64_at(b, 0)
            &&& a.transaction_id == i32_at(b, 12)
            &&& a.info_hash == b.subrange(16, 36)
            &&& a.peer_id == b.subrange(36, 56)
            &&& a.bytes_downloaded == i64_at(b, 56)
            &&& a.bytes_left == i64_at(b, 64)
            &&& a.bytes_uploaded == i64_at(b, 72)
            &&& i32_at(b, 80) == 0 ==> a.event == AnnounceEvent::NoEvent
            &&& i32_at(b, 80) == 1 ==> a.event == AnnounceEvent::Completed
            &&& i32_at(b, 80) == 2 ==> a.event == AnnounceEvent::Started
            &&& i32_at(b, 80) == 3 ==> a.event == AnnounceEvent::Stopped
            &&& !(0 <= i32_at(b, 80) <= 3) ==> a.event == AnnounceEvent::NoEvent
            &&& a.key == u32_at(b, 88)
            &&& a.peers_wanted == i32_at(b, 92)
            &&& a.port == u16_at(b, 96)
        },
{
}

/// Appends each info-hash in turn.
fn write_hashes(hashes: &Vec<InfoHash>, bytes: &mut Vec<u8>)
    ensures
        final(bytes)@ == old(bytes)@ + concat_all(hashes@.map_values(|h: InfoHash| h@)),
{
    let ghost start = bytes@;
    let ghost hs = hashes@.map_values(|h: InfoHash| h@);
    let mut i: usize = 0;
    while i < hashes.len()
        invariant
            i <= hashes@.len(),
            hs == hashes@.map_values(|h: InfoHash| h@),
            bytes@ == start + concat_all(hs.take(i as int)),
        decreases hashes@.len() - i,
    {
        let h = hashes[i];
        put_bytes(bytes, &h.0);
        assert(hs.take(i + 1).drop_last() =~= hs.take(i as int));
        i = i + 1;
    }
    assert(hs.take(hashes@.len() as int) =~= hs);
}

impl Request {
    /// Writes the request in BEP 15 layout. The path of an announce is not
    /// written.
    #[verifier::rlimit(80)]
    pub fn write(self, bytes: &mut Vec<u8>) -> (res: Result<(), IoError>)
        ensures
            res is Ok,
            final(bytes)@ == old(bytes)@ + request_bytes(self@),
    {
        let ghost start = bytes@;
        match self {
            Request::Connect(r) => {
                put_i64(bytes, PROTOCOL_IDENTIFIER);
                put_i32(bytes, 0);
                put_i32(bytes, r.transaction_id.0);
                assert(bytes@ =~= start + request_bytes(self@));
            },
            Request::Announce(r) => {
                put_i64(bytes, r.connection_id.0);
                put_i32(bytes, 1);
                put_i32(bytes, r.transaction_id.0);
                put_bytes(bytes, &r.info_hash.0);
                put_bytes(bytes, &r.peer_id.0);
                put_i64(bytes, r.bytes_downloaded.0);
                put_i64(bytes, r.bytes_left.0);
                put_i64(bytes, r.bytes_uploaded.0);
                put_i32(bytes, r.event.to_i32());
                match r.ip_address {
                    Some(ip) => put_bytes(bytes, &ip.octets),
                    None => {
                        let zeros: [u8; 4] = [0, 0, 0, 0];
                        assert(zeros@ =~= seq![0u8, 0u8, 0u8, 0u8]);
                        put_bytes(bytes, &zeros);
                    },
                }
                put_u32(bytes, r.key.0);
                put_i32(bytes, r.peers_wanted.0);
                put_u16(bytes, r.port.0);
                assert(bytes@ =~= start + request_bytes(self@));
            },
            Request::Scrape(r) => {
                put_i64(bytes, r.connection_id.0);
                put_i32(bytes, 2);
                put_i32(bytes, r.transaction_id.0);
                write_hashes(&r.info_hashes, bytes);
                assert(bytes@ =~= start + request_bytes(self@));
            },
        }
        Ok(())
    }
}

} // verus!
