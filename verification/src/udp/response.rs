//! BEP 15 responses: their byte layout, writing and parsing.

use vstd::prelude::*;
use vstd::utf8::{encode_utf8, encode_utf8_decode_utf8, encode_utf8_valid_utf8};
use crate::codec::{
    IoError, i32_at, i32_be_bytes, i64_at, i64_be_bytes, lemma_i32_at, lemma_i64_at, lemma_u16_at,
    lossy_text, lossy_string, put_bytes, put_i32, put_i64, put_u16, u16_at, u16_be_bytes,
};
use crate::net::{Ipv4Addr, Ipv6Addr};
use crate::udp::types::{
    AnnounceInterval, ConnectionId, Ip, NumberOfPeers, ResponsePeer, TorrentScrapeStatistics,
    TransactionId,
};
use crate::udp::udp::{
    Cursor, ipv4_peers_of, ipv6_peers_of, parse_ipv4_peers, parse_ipv6_peers, parse_scrape_stats,
    read_be, scrape_stats_of,
};

verus! {

#[derive(PartialEq, Eq, Clone, Copy, Debug)]
pub struct ConnectResponse {
    pub connection_id: ConnectionId,
    pub transaction_id: TransactionId,
}

#[derive(PartialEq, Eq, Clone, Debug)]
pub struct AnnounceResponse<I: Ip> {
    pub transaction_id: TransactionId,
    pub announce_interval: AnnounceInterval,
    pub leechers: NumberOfPeers,
    pub seeders: NumberOfPeers,
    pub peers: Vec<ResponsePeer<I>>,
}

#[derive(PartialEq, Eq, Clone, Debug)]
pub struct ScrapeResponse {
    pub transaction_id: TransactionId,
    pub torrent_stats: Vec<TorrentScrapeStatistics>,
}

#[derive(PartialEq, Eq, Clone, Debug)]
pub struct ErrorResponse {
    pub transaction_id: TransactionId,
    pub message: String,
}

#[derive(PartialEq, Eq, Clone, Debug)]
pub enum Response {
    Connect(ConnectResponse),
    AnnounceIpv4(AnnounceResponse<Ipv4Addr>),
    AnnounceIpv6(AnnounceResponse<Ipv6Addr>),
    Scrape(ScrapeResponse),
    Error(ErrorResponse),
}

/// A response as plain values. Peers are (address octets, port).
#[verifier::ext_equal]
pub enum ResponseModel {
    Connect { transaction_id: i32, connection_id: i64 },
    AnnounceIpv4 {
        transaction_id: i32,
        announce_interval: i32,
        leechers: i32,
        seeders: i32,
        peers: Seq<(Seq<u8>, u16)>,
    },
    AnnounceIpv6 {
        transaction_id: i32,
        announce_interval: i32,
        leechers: i32,
        seeders: i32,
        peers: Seq<(Seq<u8>, u16)>,
    },
    Scrape { transaction_id: i32, torrent_stats: Seq<TorrentScrapeStatistics> },
    Error { transaction_id: i32, message: Seq<char> },
}

impl View for Response {
    type V = ResponseModel;

    open spec fn view(&self) -> ResponseModel {
        match self {
            Response::Connect(r) => ResponseModel::Connect {
                transaction_id: r.transaction_id.0,
                connection_id: r.connection_id.0,
            },
            Response::AnnounceIpv4(r) => ResponseModel::AnnounceIpv4 {
                transaction_id: r.transaction_id.0,
                announce_interval: r.announce_interval.0,
                leechers: r.leechers.0,
                seeders: r.seeders.0,
                peers: r.peers@.map_values(|p: ResponsePeer<Ipv4Addr>| p@),
            },
            Response::AnnounceIpv6(r) => ResponseModel::AnnounceIpv6 {
                transaction_id: r.transaction_id.0,
                announce_interval: r.announce_interval.0,
                leechers: r.leechers.0,
                seeders: r.seeders.0,
                peers: r.peers@.map_values(|p: ResponsePeer<Ipv6Addr>| p@),
            },
            Response::Scrape(r) => ResponseModel::Scrape {
                transaction_id: r.transaction_id.0,
                torrent_stats: r.torrent_stats@,
            },
            Response::Error(r) => ResponseModel::Error {
                transaction_id: r.transaction_id.0,
                message: r.message@,
            },
        }
    }
}

/// The bytes of packed peers: each address, then its port.
pub open spec fn peers_bytes(ps: Seq<(Seq<u8>, u16)>) -> Seq<u8>
    decreases ps.len(),
{
    if ps.len() == 0 {
        Seq::empty()
    } else {
        peers_bytes(ps.drop_last()) + ps.last().0 + u16_be_bytes(ps.last().1)
    }
}

/// The bytes of packed statistics: seeders, completed, leechers.
pub open spec fn stats_bytes(ss: Seq<TorrentScrapeStatistics>) -> Seq<u8>
    decreases ss.len(),
{
    if ss.len() == 0 {
        Seq::empty()
    } else {
        stats_bytes(ss.drop_last()) + i32_be_bytes(ss.last().seeders.0) + i32_be_bytes(
            ss.last().completed.0,
        ) + i32_be_bytes(ss.last().leechers.0)
    }
}

/// The bytes that writing the response `m` produces.
pub open spec fn response_bytes(m: ResponseModel) -> Seq<u8> {
    match m {
        ResponseModel::Connect { transaction_id, connection_id } => i32_be_bytes(0) + i32_be_bytes(
            transaction_id,
        ) + i64_be_bytes(connection_id),
        ResponseModel::AnnounceIpv4 { transaction_id, announce_interval, leechers, seeders, peers } =>
            i32_be_bytes(1) + i32_be_bytes(transaction_id) + i32_be_bytes(announce_interval)
                + i32_be_bytes(leechers) + i32_be_bytes(seeders) + peers_bytes(peers),
        ResponseModel::AnnounceIpv6 { transaction_id, announce_interval, leechers, seeders, peers } =>
            i32_be_bytes(1) + i32_be_bytes(transaction_id) + i32_be_bytes(announce_interval)
                + i32_be_bytes(leechers) + i32_be_bytes(seeders) + peers_bytes(peers),
        ResponseModel::Scrape { transaction_id, torrent_stats } => i32_be_bytes(2) + i32_be_bytes(
            transaction_id,
        ) + stats_bytes(torrent_stats),
        ResponseModel::Error { transaction_id, message } => i32_be_bytes(3) + i32_be_bytes(
            transaction_id,
        ) + encode_utf8(message),
    }
}

/// What parsing the datagram `b` gives; `ipv4` says which address family an
/// announce response packs.
pub open spec fn parse_response(b: Seq<u8>, ipv4: bool) -> Result<ResponseModel, IoError> {
    if b.len() < 8 {
        Err(IoError::UnexpectedEof)
    } else {
        let action = i32_at(b, 0);
        let transaction_id = i32_at(b, 4);
        let rest = b.subrange(8, b.len() as int);
        if action == 0 {
            if b.len() < 16 {
                Err(IoError::UnexpectedEof)
            } else {
                Ok(ResponseModel::Connect { transaction_id, connection_id: i64_at(b, 8) })
            }
        } else if action == 1 {
            if b.len() < 20 {
                Err(IoError::UnexpectedEof)
            } else if ipv4 {
                Ok(
                    ResponseModel::AnnounceIpv4 {
                        transaction_id,
                        announce_interval: i32_at(b, 8),
                        leechers: i32_at(b, 12),
                        seeders: i32_at(b, 16),
                        peers: ipv4_peers_of(b.subrange(20, b.len() as int)),
                    },
                )
            } else {
                Ok(
                    ResponseModel::AnnounceIpv6 {
                        transaction_id,
                        announce_interval: i32_at(b, 8),
                        leechers: i32_at(b, 12),
                        seeders: i32_at(b, 16),
                        peers: ipv6_peers_of(b.subrange(20, b.len() as int)),
                    },
                )
            }
        } else if action == 2 {
            Ok(ResponseModel::Scrape { transaction_id, torrent_stats: scrape_stats_of(rest) })
        } else if action == 3 {
            Ok(ResponseModel::Error { transaction_id, message: lossy_text(rest) })
        } else {
            Ok(ResponseModel::Error { transaction_id, message: "Invalid action"@ })
        }
    }
}

/// Whether `m` could have come from a response value: 4-byte addresses in an
/// IPv4 announce response, 16-byte ones in an IPv6 one.
pub open spec fn response_model_wf(m: ResponseModel) -> bool {
    match m {
        ResponseModel::AnnounceIpv4 { peers, .. } => forall|i: int|
            0 <= i < peers.len() ==> (#[trigger] peers[i]).0.len() == 4,
        ResponseModel::AnnounceIpv6 { peers, .. } => forall|i: int|
            0 <= i < peers.len() ==> (#[trigger] peers[i]).0.len() == 16,
        _ => true,
    }
}

/// Every response value has a well-formed model.
pub proof fn lemma_response_view_wf(r: Response)
    ensures
        response_model_wf(r@),
{
    match r {
        Response::AnnounceIpv4(a) => {
            let ps = a.peers@.map_values(|p: ResponsePeer<Ipv4Addr>| p@);
            assert forall|i: int| 0 <= i < ps.len() implies (#[trigger] ps[i]).0.len() == 4 by {}
        },
        Response::AnnounceIpv6(a) => {
            let ps = a.peers@.map_values(|p: ResponsePeer<Ipv6Addr>| p@);
            assert forall|i: int| 0 <= i < ps.len() implies (#[trigger] ps[i]).0.len() == 16 by {}
        },
        _ => {},
    }
}

/// Where each packed peer lies in `peers_bytes(ps)` when every address has
/// `w` bytes.
proof fn lemma_peers_bytes_layout(ps: Seq<(Seq<u8>, u16)>, w: int)
    requires
        w >= 0,
        forall|i: int| 0 <= i < ps.len() ==> (#[trigger] ps[i]).0.len() == w,
    ensures
        peers_bytes(ps).len() == (w + 2) * ps.len(),
        forall|i: int|
            #![trigger ps[i]]
            0 <= i < ps.len() ==> {
                &&& peers_bytes(ps).subrange((w + 2) * i, (w + 2) * i + w) == ps[i].0
                &&& peers_bytes(ps).subrange((w + 2) * i + w, (w + 2) * i + w + 2)
                    == u16_be_bytes(ps[i].1)
            },
    decreases ps.len(),
{
    if ps.len() > 0 {
        let init = ps.drop_last();
        let n = ps.len() as int;
        assert forall|i: int| 0 <= i < init.len() implies (#[trigger] init[i]).0.len() == w by {
            assert(init[i] == ps[i]);
        }
        lemma_peers_bytes_layout(init, w);
        let b0 = peers_bytes(init);
        let b = peers_bytes(ps);
        assert(b == b0 + ps.last().0 + u16_be_bytes(ps.last().1));
        assert((w + 2) * (n - 1) + w + 2 == (w + 2) * n) by (nonlinear_arith);
        assert forall|i: int| #![trigger ps[i]] 0 <= i < n implies {
            &&& b.subrange((w + 2) * i, (w + 2) * i + w) == ps[i].0
            &&& b.subrange((w + 2) * i + w, (w + 2) * i + w + 2) == u16_be_bytes(ps[i].1)
        } by {
            if i < n - 1 {
                assert(init[i] == ps[i]);
                assert((w + 2) * i + w + 2 <= (w + 2) * (n - 1)) by (nonlinear_arith)
                    requires
                        0 <= i < n - 1,
                        w >= 0,
                ;
                assert(0 <= (w + 2) * i) by (nonlinear_arith)
                    requires
                        0 <= i,
                        w >= 0,
                ;
                assert(b.subrange((w + 2) * i, (w + 2) * i + w) =~= b0.subrange(
                    (w + 2) * i,
                    (w + 2) * i + w,
                ));
                assert(b.subrange((w + 2) * i + w, (w + 2) * i + w + 2) =~= b0.subrange(
                    (w + 2) * i + w,
                    (w + 2) * i + w + 2,
                ));
            } else {
                assert(b.subrange((w + 2) * i, (w + 2) * i + w) =~= ps.last().0);
                assert(b.subrange((w + 2) * i + w, (w + 2) * i + w + 2) =~= u16_be_bytes(
                    ps.last().1,
                ));
            }
        }
    }
}

/// Reading packed peers back gives the peers that were packed.
proof fn lemma_peers_roundtrip(ps: Seq<(Seq<u8>, u16)>, w: int)
    requires
        w == 4 || w == 16,
        forall|i: int| 0 <= i < ps.len() ==> (#[trigger] ps[i]).0.len() == w,
    ensures
        w == 4 ==> ipv4_peers_of(peers_bytes(ps)) == ps,
        w == 16 ==> ipv6_peers_of(peers_bytes(ps)) == ps,
{
    lemma_peers_bytes_layout(ps, w);
    let b = peers_bytes(ps);
    let n = ps.len() as int;
    assert((b.len() as int) / (w + 2) == n) by (nonlinear_arith)
        requires
            b.len() == (w + 2) * n,
            w + 2 > 0,
    ;
    assert forall|i: int| 0 <= i < n implies u16_at(b, (w + 2) * i + w) == (#[trigger] ps[i]).1 by {
        assert(0 <= (w + 2) * i) by (nonlinear_arith)
            requires
                0 <= i,
                w >= 0,
        ;
        assert((w + 2) * i + w + 2 <= (w + 2) * n) by (nonlinear_arith)
            requires
                0 <= i < n,
                w >= 0,
        ;
        lemma_u16_at(b, (w + 2) * i + w, ps[i].1);
    }
    if w == 4 {
        assert(ipv4_peers_of(b) =~= ps);
    } else {
        assert(ipv6_peers_of(b) =~= ps);
    }
}

/// Where each statistics entry lies in `stats_bytes(ss)`.
proof fn lemma_stats_bytes_layout(ss: Seq<TorrentScrapeStatistics>)
    ensures
        stats_bytes(ss).len() == 12 * ss.len(),
        forall|i: int|
            #![trigger ss[i]]
            0 <= i < ss.len() ==> {
                &&& stats_bytes(ss).subrange(12 * i, 12 * i + 4) == i32_be_bytes(ss[i].seeders.0)
                &&& stats_bytes(ss).subrange(12 * i + 4, 12 * i + 8) == i32_be_bytes(
                    ss[i].completed.0,
                )
                &&& stats_bytes(ss).subrange(12 * i + 8, 12 * i + 12) == i32_be_bytes(
                    ss[i].leechers.0,
                )
            },
    decreases ss.len(),
{
    if ss.len() > 0 {
        let init = ss.drop_last();
        let n = ss.len() as int;
        lemma_stats_bytes_layout(init);
        let b0 = stats_bytes(init);
        let b = stats_bytes(ss);
        let l = ss.last();
        assert(b == b0 + i32_be_bytes(l.seeders.0) + i32_be_bytes(l.completed.0) + i32_be_bytes(
            l.leechers.0,
        ));
        assert forall|i: int| #![trigger ss[i]] 0 <= i < n implies {
            &&& b.subrange(12 * i, 12 * i + 4) == i32_be_bytes(ss[i].seeders.0)
            &&& b.subrange(12 * i + 4, 12 * i + 8) == i32_be_bytes(ss[i].completed.0)
            &&& b.subrange(12 * i + 8, 12 * i + 12) == i32_be_bytes(ss[i].leechers.0)
        } by {
            if i < n - 1 {
                assert(init[i] == ss[i]);
                assert(b.subrange(12 * i, 12 * i + 4) =~= b0.subrange(12 * i, 12 * i + 4));
                assert(b.subrange(12 * i + 4, 12 * i + 8) =~= b0.subrange(12 * i + 4, 12 * i + 8));
                assert(b.subrange(12 * i + 8, 12 * i + 12) =~= b0.subrange(
                    12 * i + 8,
                    12 * i + 12,
                ));
            } else {
                assert(b.subrange(12 * i, 12 * i + 4) =~= i32_be_bytes(l.seeders.0));
                assert(b.subrange(12 * i + 4, 12 * i + 8) =~= i32_be_bytes(l.completed.0));
                assert(b.subrange(12 * i + 8, 12 * i + 12) =~= i32_be_bytes(l.leechers.0));
            }
        }
    }
}

/// The size of a response on the wire: 16 bytes for a connect answer; a
/// 20-byte announce header and 6 bytes per IPv4 peer or 18 per IPv6 peer;
/// an 8-byte scrape header and 12 bytes per torrent; an 8-byte error header
/// and the message's UTF-8 bytes.
pub open spec fn wire_size(m: ResponseModel) -> nat {
    match m {
        ResponseModel::Connect { .. } => 16,
        ResponseModel::AnnounceIpv4 { peers, .. } => 20 + 6 * peers.len(),
        ResponseModel::AnnounceIpv6 { peers, .. } => 20 + 18 * peers.len(),
        ResponseModel::Scrape { torrent_stats, .. } => 8 + 12 * torrent_stats.len(),
        ResponseModel::Error { message, .. } => 8 + encode_utf8(message).len(),
    }
}

/// Every well-formed response writes exactly `wire_size` bytes.
pub proof fn lemma_wire_size(m: ResponseModel)
    requires
        response_model_wf(m),
    ensures
        response_bytes(m).len() == wire_size(m),
{
    match m {
        ResponseModel::AnnounceIpv4 { peers, .. } => lemma_peers_bytes_layout(peers, 4),
        ResponseModel::AnnounceIpv6 { peers, .. } => lemma_peers_bytes_layout(peers, 16),
        ResponseModel::Scrape { torrent_stats, .. } => lemma_stats_bytes_layout(torrent_stats),
        _ => {},
    }
}

/// Reading packed statistics back gives the statistics that were packed.
proof fn lemma_stats_roundtrip(ss: Seq<TorrentScrapeStatistics>)
    ensures
        scrape_stats_of(stats_bytes(ss)) == ss,
{
    lemma_stats_bytes_layout(ss);
    let b = stats_bytes(ss);
    assert forall|i: int| 0 <= i < ss.len() implies {
        &&& i32_at(b, 12 * i) == (#[trigger] ss[i]).seeders.0
        &&& i32_at(b, 12 * i + 4) == ss[i].completed.0
        &&& i32_at(b, 12 * i + 8) == ss[i].leechers.0
    } by {
        lemma_i32_at(b, 12 * i, ss[i].seeders.0);
        lemma_i32_at(b, 12 * i + 4, ss[i].completed.0);
        lemma_i32_at(b, 12 * i + 8, ss[i].leechers.0);
    }
    assert(scrape_stats_of(b) =~= ss);
}

/// The action and transaction id of written bytes read back.
proof fn lemma_header_roundtrip(b: Seq<u8>, action: i32, transaction_id: i32, rest: Seq<u8>)
    requires
        b == i32_be_bytes(action) + i32_be_bytes(transaction_id) + rest,
    ensures
        b.len() == 8 + rest.len(),
        i32_at(b, 0) == action,
        i32_at(b, 4) == transaction_id,
        b.subrange(8, b.len() as int) == rest,
{
    assert(b.subrange(0, 4) =~= i32_be_bytes(action));
    assert(b.subrange(4, 8) =~= i32_be_bytes(transaction_id));
    assert(b.subrange(8, b.len() as int) =~= rest);
    lemma_i32_at(b, 0, action);
    lemma_i32_at(b, 4, transaction_id);
}

/// An announce response written and read back with its own address family
/// comes back as it was.
#[verifier::rlimit(40)]
proof fn lemma_announce_response_roundtrip(m: ResponseModel)
    requires
        response_model_wf(m),
        m is AnnounceIpv4 || m is AnnounceIpv6,
    ensures
        parse_response(response_bytes(m), m is AnnounceIpv4) == Ok::<ResponseModel, IoError>(m),
{
    let b = response_bytes(m);
    match m {
        ResponseModel::AnnounceIpv4 { transaction_id, announce_interval, leechers, seeders, peers } => {
            let pb = peers_bytes(peers);
            let tail = i32_be_bytes(announce_interval) + i32_be_bytes(leechers) + i32_be_bytes(
                seeders,
            ) + pb;
            assert(b =~= i32_be_bytes(1) + i32_be_bytes(transaction_id) + tail);
            lemma_header_roundtrip(b, 1, transaction_id, tail);
            assert(b.subrange(8, 12) =~= i32_be_bytes(announce_interval));
            assert(b.subrange(12, 16) =~= i32_be_bytes(leechers));
            assert(b.subrange(16, 20) =~= i32_be_bytes(seeders));
            assert(b.subrange(20, b.len() as int) =~= pb);
            lemma_i32_at(b, 8, announce_interval);
            lemma_i32_at(b, 12, leechers);
            lemma_i32_at(b, 16, seeders);
            lemma_peers_roundtrip(peers, 4);
        },
        ResponseModel::AnnounceIpv6 { transaction_id, announce_interval, leechers, seeders, peers } => {
            let pb = peers_bytes(peers);
            let tail = i32_be_bytes(announce_interval) + i32_be_bytes(leechers) + i32_be_bytes(
                seeders,
            ) + pb;
            assert(b =~= i32_be_bytes(1) + i32_be_bytes(transaction_id) + tail);
            lemma_header_roundtrip(b, 1, transaction_id, tail);
            assert(b.subrange(8, 12) =~= i32_be_bytes(announce_interval));
            assert(b.subrange(12, 16) =~= i32_be_bytes(leechers));
            assert(b.subrange(16, 20) =~= i32_be_bytes(seeders));
            assert(b.subrange(20, b.len() as int) =~= pb);
            lemma_i32_at(b, 8, announce_interval);
            lemma_i32_at(b, 12, leechers);
            lemma_i32_at(b, 16, seeders);
            lemma_peers_roundtrip(peers, 16);
        },
        _ => {},
    }
}

/// An announce response is laid out as BEP 15 says: action 1, the
/// transaction id, the interval, the leechers at bytes 12..16 and the
/// seeders at bytes 16..20, each a big-endian `i32`, then the peers.
pub proof fn lemma_announce_response_layout(m: ResponseModel)
    requires
        m is AnnounceIpv4 || m is AnnounceIpv6,
    ensures
        ({
            let b = response_bytes(m);
            match m {
                ResponseModel::AnnounceIpv4 { transaction_id, announce_interval, leechers, seeders, peers }
                | ResponseModel::AnnounceIpv6 { transaction_id, announce_interval, leechers, seeders, peers } => {
                    &&& b.len() >= 20
                    &&& b.subrange(0, 4) == i32_be_bytes(1)
                    &&& b.subrange(4, 8) == i32_be_bytes(transaction_id)
                    &&& b.subrange(8, 12) == i32_be_bytes(announce_interval)
                    &&& b.subrange(12, 16) == i32_be_bytes(leechers)
                    &&& b.subrange(16, 20) == i32_be_bytes(seeders)
                    &&& b.subrange(20, b.len() as int) == peers_bytes(peers)
                },
                _ => true,
            }
        }),
{
    let b = response_bytes(m);
    match m {
        ResponseModel::AnnounceIpv4 { transaction_id, announce_interval, leechers, seeders, peers }
        | ResponseModel::AnnounceIpv6 { transaction_id, announce_interval, leechers, seeders, peers } => {
            let h = i32_be_bytes(1) + i32_be_bytes(transaction_id) + i32_be_bytes(announce_interval)
                + i32_be_bytes(leechers) + i32_be_bytes(seeders);
            assert(b == h + peers_bytes(peers));
            assert(b.subrange(0, 4) =~= i32_be_bytes(1));
            assert(b.subrange(4, 8) =~= i32_be_bytes(transaction_id));
            assert(b.subrange(8, 12) =~= i32_be_bytes(announce_interval));
            assert(b.subrange(12, 16) =~= i32_be_bytes(leechers));
            assert(b.subrange(16, 20) =~= i32_be_bytes(seeders));
            assert(b.subrange(20, b.len() as int) =~= peers_bytes(peers));
        },
        _ => {},
    }
}

/// Reading an announce response takes the leechers from bytes 12..16 and the
/// seeders from bytes 16..20, each a big-endian `i32`.
pub proof fn lemma_announce_response_read_offsets(b: Seq<u8>, ipv4: bool)
    requires
        b.len() >= 20,
        i32_at(b, 0) == 1,
    ensures
        parse_response(b, ipv4) matches Ok(m) && match m {
            ResponseModel::AnnounceIpv4 { transaction_id, announce_interval, leechers, seeders, .. }
            | ResponseModel::AnnounceIpv6 { transaction_id, announce_interval, leechers, seeders, .. } => {
                &&& (m is AnnounceIpv4 <==> ipv4)
                &&& transaction_id == i32_at(b, 4)
                &&& announce_interval == i32_at(b, 8)
                &&& leechers == i32_at(b, 12)
                &&& seeders == i32_at(b, 16)
            },
            _ => false,
        },
{
}

/// What `write` produces, `from_bytes` reads back: parsing the bytes of a
/// response (announce responses with their own address family) gives the
/// same response.
#[verifier::spinoff_prover]
#[verifier::rlimit(30)]
pub proof fn lemma_response_write_then_parse(m: ResponseModel)
    requires
        response_model_wf(m),
    ensures
        parse_response(response_bytes(m), !(m is AnnounceIpv6)) == Ok::<ResponseModel, IoError>(m),
{
    broadcast use vstd::utf8::group_utf8_lib;

    let b = response_bytes(m);
    match m {
        ResponseModel::Connect { transaction_id, connection_id } => {
            lemma_header_roundtrip(b, 0, transaction_id, i64_be_bytes(connection_id));
            assert(b.subrange(8, 16) =~= i64_be_bytes(connection_id));
            lemma_i64_at(b, 8, connection_id);
        },
        ResponseModel::AnnounceIpv4 { .. } => {
            lemma_announce_response_roundtrip(m);
        },
        ResponseModel::AnnounceIpv6 { .. } => {
            lemma_announce_response_roundtrip(m);
        },
        ResponseModel::Scrape { transaction_id, torrent_stats } => {
            lemma_header_roundtrip(b, 2, transaction_id, stats_bytes(torrent_stats));
            lemma_stats_roundtrip(torrent_stats);
        },
        ResponseModel::Error { transaction_id, message } => {
            lemma_header_roundtrip(b, 3, transaction_id, encode_utf8(message));
            encode_utf8_valid_utf8(message);
            encode_utf8_decode_utf8(message);
        },
    }
}

/// Appends each peer: address octets, then port.
fn write_peers_v4(peers: &Vec<ResponsePeer<Ipv4Addr>>, bytes: &mut Vec<u8>)
    ensures
        final(bytes)@ == old(bytes)@ + peers_bytes(
            peers@.map_values(|p: ResponsePeer<Ipv4Addr>| p@),
        ),
{
    let ghost start = bytes@;
    let ghost ps = peers@.map_values(|p: ResponsePeer<Ipv4Addr>| p@);
    let mut i: usize = 0;
    while i < peers.len()
        invariant
            i <= peers@.len(),
            ps == peers@.map_values(|p: ResponsePeer<Ipv4Addr>| p@),
            bytes@ == start + peers_bytes(ps.take(i as int)),
        decreases peers@.len() - i,
    {
        let p = peers[i];
        put_bytes(bytes, &p.ip_address.octets);
        put_u16(bytes, p.port.0);
        assert(ps.take(i + 1).drop_last() =~= ps.take(i as int));
        i = i + 1;
        assert(bytes@ =~= start + peers_bytes(ps.take(i as int)));
    }
    assert(ps.take(peers@.len() as int) =~= ps);
}

fn write_peers_v6(peers: &Vec<ResponsePeer<Ipv6Addr>>, bytes: &mut Vec<u8>)
    ensures
        final(bytes)@ == old(bytes)@ + peers_bytes(
            peers@.map_values(|p: ResponsePeer<Ipv6Addr>| p@),
        ),
{
    let ghost start = bytes@;
    let ghost ps = peers@.map_values(|p: ResponsePeer<Ipv6Addr>| p@);
    let mut i: usize = 0;
    while i < peers.len()
        invariant
            i <= peers@.len(),
            ps == peers@.map_values(|p: ResponsePeer<Ipv6Addr>| p@),
            bytes@ == start + peers_bytes(ps.take(i as int)),
        decreases peers@.len() - i,
    {
        let p = peers[i];
        put_bytes(bytes, &p.ip_address.octets);
        put_u16(bytes, p.port.0);
        assert(ps.take(i + 1).drop_last() =~= ps.take(i as int));
        i = i + 1;
        assert(bytes@ =~= start + peers_bytes(ps.take(i as int)));
    }
    assert(ps.take(peers@.len() as int) =~= ps);
}

/// Appends each entry: seeders, completed, leechers.
fn write_stats(stats: &Vec<TorrentScrapeStatistics>, bytes: &mut Vec<u8>)
    ensures
        final(bytes)@ == old(bytes)@ + stats_bytes(stats@),
{
    let ghost start = bytes@;
    let mut i: usize = 0;
    while i < stats.len()
        invariant
            i <= stats@.len(),
            bytes@ == start + stats_bytes(stats@.take(i as int)),
        decreases stats@.len() - i,
    {
        let s = stats[i];
        put_i32(bytes, s.seeders.0);
        put_i32(bytes, s.completed.0);
        put_i32(bytes, s.leechers.0);
        assert(stats@.take(i + 1).drop_last() =~= stats@.take(i as int));
        i = i + 1;
        assert(bytes@ =~= start + stats_bytes(stats@.take(i as int)));
    }
    assert(stats@.take(stats@.len() as int) =~= stats@);
}

impl Response {
    /// Writes the response in BEP 15 layout.
    #[verifier::rlimit(40)]
    pub fn write(&self, bytes: &mut Vec<u8>) -> (res: Result<(), IoError>)
        ensures
            res is Ok,
            final(bytes)@ == old(bytes)@ + response_bytes(self@),
    {
        let ghost start = bytes@;
        match self {
            Response::Connect(r) => {
                put_i32(bytes, 0);
                put_i32(bytes, r.transaction_id.0);
                put_i64(bytes, r.connection_id.0);
                assert(bytes@ =~= start + response_bytes(self@));
            },
            Response::AnnounceIpv4(r) => {
                put_i32(bytes, 1);
                put_i32(bytes, r.transaction_id.0);
                put_i32(bytes, r.announce_interval.0);
                put_i32(bytes, r.leechers.0);
                put_i32(bytes, r.seeders.0);
                write_peers_v4(&r.peers, bytes);
                assert(bytes@ =~= start + response_bytes(self@));
            },
            Response::AnnounceIpv6(r) => {
                put_i32(bytes, 1);
                put_i32(bytes, r.transaction_id.0);
                put_i32(bytes, r.announce_interval.0);
                put_i32(bytes, r.leechers.0);
                put_i32(bytes, r.seeders.0);
                write_peers_v6(&r.peers, bytes);
                assert(bytes@ =~= start + response_bytes(self@));
            },
            Response::Scrape(r) => {
                put_i32(bytes, 2);
                put_i32(bytes, r.transaction_id.0);
                write_stats(&r.torrent_stats, bytes);
                assert(bytes@ =~= start + response_bytes(self@));
            },
            Response::Error(r) => {
                put_i32(bytes, 3);
                put_i32(bytes, r.transaction_id.0);
                put_bytes(bytes, r.message.as_str().as_bytes());
                assert(bytes@ =~= start + response_bytes(self@));
            },
        }
        Ok(())
    }

    /// The exact number of bytes that `write` produces.
    pub fn estimated_size(&self) -> (r: usize)
        requires
            response_bytes(self@).len() <= usize::MAX,
        ensures
            r == response_bytes(self@).len(),
            r == wire_size(self@),
    {
        proof {
            lemma_response_view_wf(*self);
            lemma_wire_size(self@);
        }
        match self {
            Response::Connect(_) => 16,
            Response::AnnounceIpv4(r) => {
                proof {
                    lemma_peers_bytes_layout(r.peers@.map_values(|p: ResponsePeer<Ipv4Addr>| p@), 4);
                }
                20 + r.peers.len() * 6
            },
            Response::AnnounceIpv6(r) => {
                proof {
                    lemma_peers_bytes_layout(r.peers@.map_values(|p: ResponsePeer<Ipv6Addr>| p@), 16);
                }
                20 + r.peers.len() * 18
            },
            Response::Scrape(r) => {
                proof {
                    lemma_stats_bytes_layout(r.torrent_stats@);
                }
                8 + r.torrent_stats.len() * 12
            },
            Response::Error(r) => 8 + r.message.as_str().len(),
        }
    }

    /// Writes the response into a new buffer of exactly its size.
    pub fn write_to_vec(&self) -> (res: Result<Vec<u8>, IoError>)
        requires
            response_bytes(self@).len() <= usize::MAX,
        ensures
            res matches Ok(v) && v@ == response_bytes(self@) && v@.len() == wire_size(self@),
    {
        let size = self.estimated_size();
        let mut buffer: Vec<u8> = Vec::with_capacity(size);
        match self.write(&mut buffer) {
            Ok(()) => {},
            Err(e) => return Err(e),
        }
        assert(buffer@ =~= response_bytes(self@));
        Ok(buffer)
    }

    /// Parses a BEP 15 response datagram; `ipv4` says which address family
    /// an announce response packs.
    ///
    /// Fails with `UnexpectedEof` when the fixed fields are cut short. An
    /// unknown action is no failure: it gives an error response whose message
    /// is `Invalid action`.
    pub fn from_bytes(bytes: &[u8], ipv4: bool) -> (res: Result<Self, IoError>)
        ensures
            match res {
                Ok(r) => parse_response(bytes@, ipv4) == Ok::<ResponseModel, IoError>(r@),
                Err(e) => parse_response(bytes@, ipv4) == Err::<ResponseModel, IoError>(e),
            },
    {
        let mut cursor = Cursor::new(bytes);
        let action_bytes: [u8; 4] = read_be(&mut cursor)?;
        let transaction_bytes: [u8; 4] = read_be(&mut cursor)?;
        let action = crate::codec::get_i32(&action_bytes, 0);
        let transaction_id = crate::codec::get_i32(&transaction_bytes, 0);
        proof {
            assert(action == i32_at(bytes@, 0)) by {
                assert(action_bytes@ =~= bytes@.subrange(0, 4));
            }
            assert(transaction_id == i32_at(bytes@, 4)) by {
                assert(transaction_bytes@ =~= bytes@.subrange(4, 8));
            }
        }
        if action == 0 {
            let id_bytes: [u8; 8] = read_be(&mut cursor)?;
            let connection_id = crate::codec::get_i64(&id_bytes, 0);
            assert(connection_id == i64_at(bytes@, 8)) by {
                assert(id_bytes@ =~= bytes@.subrange(8, 16));
            }
            Ok(
                Response::Connect(
                    ConnectResponse {
                        connection_id: ConnectionId(connection_id),
                        transaction_id: TransactionId(transaction_id),
                    },
                ),
            )
        } else if action == 1 {
            let interval_bytes: [u8; 4] = read_be(&mut cursor)?;
            let leechers_bytes: [u8; 4] = read_be(&mut cursor)?;
            let seeders_bytes: [u8; 4] = read_be(&mut cursor)?;
            let announce_interval = crate::codec::get_i32(&interval_bytes, 0);
            let leechers = crate::codec::get_i32(&leechers_bytes, 0);
            let seeders = crate::codec::get_i32(&seeders_bytes, 0);
            proof {
                assert(interval_bytes@ =~= bytes@.subrange(8, 12));
                assert(leechers_bytes@ =~= bytes@.subrange(12, 16));
                assert(seeders_bytes@ =~= bytes@.subrange(16, 20));
            }
            let remaining = crate::udp::request::slice_subrange(bytes, 20, bytes.len());
            if ipv4 {
                let peers = match parse_ipv4_peers(remaining.as_slice()) {
                    Ok(p) => p,
                    Err(e) => return Err(e),
                };
                Ok(
                    Response::AnnounceIpv4(
                        AnnounceResponse {
                            transaction_id: TransactionId(transaction_id),
                            announce_interval: AnnounceInterval(announce_interval),
                            leechers: NumberOfPeers(leechers),
                            seeders: NumberOfPeers(seeders),
                            peers,
                        },
                    ),
                )
            } else {
                let peers = match parse_ipv6_peers(remaining.as_slice()) {
                    Ok(p) => p,
                    Err(e) => return Err(e),
                };
                Ok(
                    Response::AnnounceIpv6(
                        AnnounceResponse {
                            transaction_id: TransactionId(transaction_id),
                            announce_interval: AnnounceInterval(announce_interval),
                            leechers: NumberOfPeers(leechers),
                            seeders: NumberOfPeers(seeders),
                            peers,
                        },
                    ),
                )
            }
        } else if action == 2 {
            let remaining = crate::udp::request::slice_subrange(bytes, 8, bytes.len());
            let torrent_stats = match parse_scrape_stats(remaining.as_slice()) {
                Ok(s) => s,
                Err(e) => return Err(e),
            };
            Ok(Response::Scrape(ScrapeResponse { transaction_id: TransactionId(transaction_id), torrent_stats }))
        } else if action == 3 {
            let remaining = crate::udp::request::slice_subrange(bytes, 8, bytes.len());
            let message = lossy_string(remaining.as_slice());
            Ok(Response::Error(ErrorResponse { transaction_id: TransactionId(transaction_id), message }))
        } else {
            Ok(
                Response::Error(
                    ErrorResponse {
                        transaction_id: TransactionId(transaction_id),
                        message: String::from_str("Invalid action"),
                    },
                ),
            )
        }
    }
}

} // verus!
