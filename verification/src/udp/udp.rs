//! Byte-level helpers of the UDP tracker: fixed-size reads, packed peer and
//! scrape lists, and the Simple Proxy Protocol header.

use vstd::prelude::*;
use crate::codec::{IoError, array16, array4, get_i32, get_u16, i32_at, u16_at};
use crate::net::{IpAddr, Ipv4Addr, Ipv6Addr, SocketAddr};
use crate::udp::types::{NumberOfDownloads, NumberOfPeers, Port, ResponsePeer, TorrentScrapeStatistics};

verus! {

pub const PROTOCOL_IDENTIFIER: i64 = 4_497_486_125_440;

/// Largest number of info-hashes one scrape request is answered for.
pub const MAX_SCRAPE_TORRENTS: u8 = 74;

/// Largest datagram the server reads.
pub const MAX_PACKET_SIZE: usize = 1496;

/// Length of a Simple Proxy Protocol header.
pub const SPP_HEADER_SIZE: usize = 38;

/// The two bytes that open a Simple Proxy Protocol header.
pub const SPP_MAGIC: u16 = 0x56EC;

/// A read position over a byte slice.
pub struct Cursor<'a> {
    pub bytes: &'a [u8],
    pub position: usize,
}

impl<'a> Cursor<'a> {
    pub fn new(bytes: &'a [u8]) -> (r: Cursor<'a>)
        ensures
            r.bytes@ == bytes@,
            r.position == 0,
    {
        Cursor { bytes, position: 0 }
    }
}

/// Reads exactly `N` bytes at the cursor, for use as a big-endian number.
///
/// Fails with `UnexpectedEof` when fewer than `N` bytes are left; the cursor
/// then stands at the end.
pub fn read_be<const N: usize>(r: &mut Cursor) -> (res: Result<[u8; N], IoError>)
    ensures
        final(r).bytes@ == old(r).bytes@,
        old(r).position + N <= old(r).bytes@.len() ==> {
            &&& res matches Ok(a)
            &&& a@ == old(r).bytes@.subrange(old(r).position as int, old(r).position + N)
            &&& final(r).position == old(r).position + N
        },
        !(old(r).position + N <= old(r).bytes@.len()) ==> {
            &&& res == Err::<[u8; N], IoError>(IoError::UnexpectedEof)
            &&& final(r).position == old(r).bytes@.len()
        },
{
    let len = r.bytes.len();
    if r.position <= len && len - r.position >= N {
        let start = r.position;
        let mut buf: [u8; N] = vstd::array::array_fill_for_copy_types(0u8);
        let mut i: usize = 0;
        while i < N
            invariant
                i <= N,
                start + N <= len,
                len == r.bytes@.len(),
                buf@.len() == N,
                forall|j: int| 0 <= j < i ==> buf@[j] == r.bytes@[start + j],
            decreases N - i,
        {
            buf[i] = r.bytes[start + i];
            i = i + 1;
        }
        assert(buf@ =~= r.bytes@.subrange(start as int, start + N));
        r.position = start + N;
        Ok(buf)
    } else {
        r.position = len;
        Err(IoError::UnexpectedEof)
    }
}

/// The peers packed in `b` as 6-byte entries (IPv4 address, then port).
/// Trailing bytes that do not fill an entry are ignored.
pub open spec fn ipv4_peers_of(b: Seq<u8>) -> Seq<(Seq<u8>, u16)> {
    Seq::new((b.len() / 6) as nat, |i: int| (b.subrange(6 * i, 6 * i + 4), u16_at(b, 6 * i + 4)))
}

/// The peers packed in `b` as 18-byte entries (IPv6 address, then port).
pub open spec fn ipv6_peers_of(b: Seq<u8>) -> Seq<(Seq<u8>, u16)> {
    Seq::new(
        (b.len() / 18) as nat,
        |i: int| (b.subrange(18 * i, 18 * i + 16), u16_at(b, 18 * i + 16)),
    )
}

/// The statistics packed in `b` as 12-byte entries (seeders, completed,
/// leechers).
pub open spec fn scrape_stats_of(b: Seq<u8>) -> Seq<TorrentScrapeStatistics> {
    Seq::new(
        (b.len() / 12) as nat,
        |i: int|
            TorrentScrapeStatistics {
                seeders: NumberOfPeers(i32_at(b, 12 * i)),
                completed: NumberOfDownloads(i32_at(b, 12 * i + 4)),
                leechers: NumberOfPeers(i32_at(b, 12 * i + 8)),
            },
    )
}

proof fn lemma_chunk_in_bounds(i: int, n: int, w: int, len: int)
    requires
        0 <= i < n,
        n == len / w,
        w > 0,
        len >= 0,
    ensures
        w * i + w <= len,
{
    assert(w * i + w <= w * n) by (nonlinear_arith)
        requires
            0 <= i < n,
            w > 0,
    ;
    assert(w * n <= len) by (nonlinear_arith)
        requires
            n == len / w,
            w > 0,
            len >= 0,
    ;
}

/// Parses packed 6-byte (IPv4 + port) peer entries. Never fails.
pub fn parse_ipv4_peers(bytes: &[u8]) -> (res: Result<Vec<ResponsePeer<Ipv4Addr>>, IoError>)
    ensures
        (res matches Ok(peers) && peers@.map_values(|p: ResponsePeer<Ipv4Addr>| p@)
            == ipv4_peers_of(bytes@)),
{
    let peer_count = bytes.len() / 6;
    let mut peers: Vec<ResponsePeer<Ipv4Addr>> = Vec::with_capacity(peer_count);
    let mut i: usize = 0;
    while i < peer_count
        invariant
            i <= peer_count,
            peer_count == bytes@.len() / 6,
            bytes.len() == bytes@.len(),
            peers@.len() == i,
            forall|j: int|
                0 <= j < i ==> #[trigger] peers@[j]@ == ipv4_peers_of(bytes@)[j],
        decreases peer_count - i,
    {
        proof {
            lemma_chunk_in_bounds(i as int, peer_count as int, 6, bytes@.len() as int);
        }
        let at = i * 6;
        let ip = array4(bytes, at);
        let port = get_u16(bytes, at + 4);
        peers.push(ResponsePeer { ip_address: Ipv4Addr { octets: ip }, port: Port(port) });
        i = i + 1;
    }
    assert(peers@.map_values(|p: ResponsePeer<Ipv4Addr>| p@) =~= ipv4_peers_of(bytes@));
    Ok(peers)
}

/// Parses packed 18-byte (IPv6 + port) peer entries. Never fails.
pub fn parse_ipv6_peers(bytes: &[u8]) -> (res: Result<Vec<ResponsePeer<Ipv6Addr>>, IoError>)
    ensures
        (res matches Ok(peers) && peers@.map_values(|p: ResponsePeer<Ipv6Addr>| p@)
            == ipv6_peers_of(bytes@)),
{
    let peer_count = bytes.len() / 18;
    let mut peers: Vec<ResponsePeer<Ipv6Addr>> = Vec::with_capacity(peer_count);
    let mut i: usize = 0;
    while i < peer_count
        invariant
            i <= peer_count,
            peer_count == bytes@.len() / 18,
            bytes.len() == bytes@.len(),
            peers@.len() == i,
            forall|j: int|
                0 <= j < i ==> #[trigger] peers@[j]@ == ipv6_peers_of(bytes@)[j],
        decreases peer_count - i,
    {
        proof {
            lemma_chunk_in_bounds(i as int, peer_count as int, 18, bytes@.len() as int);
        }
        let at = i * 18;
        let ip = array16(bytes, at);
        let port = get_u16(bytes, at + 16);
        peers.push(ResponsePeer { ip_address: Ipv6Addr { octets: ip }, port: Port(port) });
        i = i + 1;
    }
    assert(peers@.map_values(|p: ResponsePeer<Ipv6Addr>| p@) =~= ipv6_peers_of(bytes@));
    Ok(peers)
}

/// Parses packed 12-byte scrape statistics entries. Never fails.
pub fn parse_scrape_stats(bytes: &[u8]) -> (res: Result<Vec<TorrentScrapeStatistics>, IoError>)
    ensures
        (res matches Ok(stats) && stats@ == scrape_stats_of(bytes@)),
{
    let stats_count = bytes.len() / 12;
    let mut stats: Vec<TorrentScrapeStatistics> = Vec::with_capacity(stats_count);
    let mut i: usize = 0;
    while i < stats_count
        invariant
            i <= stats_count,
            stats_count == bytes@.len() / 12,
            bytes.len() == bytes@.len(),
            stats@.len() == i,
            forall|j: int| 0 <= j < i ==> #[trigger] stats@[j] == scrape_stats_of(bytes@)[j],
        decreases stats_count - i,
    {
        proof {
            lemma_chunk_in_bounds(i as int, stats_count as int, 12, bytes@.len() as int);
        }
        let at = i * 12;
        let seeders = get_i32(bytes, at);
        let downloads = get_i32(bytes, at + 4);
        let leechers = get_i32(bytes, at + 8);
        stats.push(
            TorrentScrapeStatistics {
                seeders: NumberOfPeers(seeders),
                completed: NumberOfDownloads(downloads),
                leechers: NumberOfPeers(leechers),
            },
        );
        i = i + 1;
    }
    assert(stats@ =~= scrape_stats_of(bytes@));
    Ok(stats)
}

/// Whether 16 address bytes are an IPv4-mapped IPv6 address (`::ffff:a.b.c.d`).
pub open spec fn is_ipv4_mapped(b: Seq<u8>) -> bool {
    &&& forall|i: int| 0 <= i < 10 ==> b[i] == 0
    &&& b[10] == 0xff
    &&& b[11] == 0xff
}

/// The address that 16 bytes stand for: IPv4 for a mapped address, else IPv6.
pub open spec fn address_of(b: Seq<u8>) -> IpAddr {
    if is_ipv4_mapped(b) {
        IpAddr::V4(Ipv4Addr { octets: [b[12], b[13], b[14], b[15]] })
    } else {
        IpAddr::V6(Ipv6Addr { octets: choose|a: [u8; 16]| a@ == b })
    }
}

/// Interprets 16 bytes as an IP address, collapsing IPv4-mapped IPv6
/// addresses to IPv4.
pub fn parse_address(bytes: &[u8; 16]) -> (r: IpAddr)
    ensures
        is_ipv4_mapped(bytes@) ==> r == IpAddr::V4(
            Ipv4Addr { octets: [bytes[12], bytes[13], bytes[14], bytes[15]] },
        ),
        !is_ipv4_mapped(bytes@) ==> r == IpAddr::V6(Ipv6Addr { octets: *bytes }),
{
    let mut zeros = true;
    let mut i: usize = 0;
    while i < 10
        invariant
            i <= 10,
            zeros <==> forall|j: int| 0 <= j < i ==> bytes@[j] == 0,
        decreases 10 - i,
    {
        if bytes[i] != 0 {
            zeros = false;
        }
        i = i + 1;
    }
    if zeros && bytes[10] == 0xff && bytes[11] == 0xff {
        IpAddr::V4(Ipv4Addr { octets: [bytes[12], bytes[13], bytes[14], bytes[15]] })
    } else {
        IpAddr::V6(Ipv6Addr { octets: *bytes })
    }
}

/// The addresses carried in a Simple Proxy Protocol header.
#[derive(Debug, Clone, Copy, PartialEq, Eq)]
pub struct SppHeader {
    pub client_addr: IpAddr,
    pub client_port: u16,
    pub proxy_addr: IpAddr,
    pub proxy_port: u16,
}

impl SppHeader {
    /// The real client address carried in the header.
    pub fn client_socket_addr(&self) -> (r: SocketAddr)
        ensures
            r == (SocketAddr { ip: self.client_addr, port: self.client_port }),
    {
        SocketAddr::new(self.client_addr, self.client_port)
    }

    /// The proxy that forwarded the datagram.
    pub fn proxy_socket_addr(&self) -> (r: SocketAddr)
        ensures
            r == (SocketAddr { ip: self.proxy_addr, port: self.proxy_port }),
    {
        SocketAddr::new(self.proxy_addr, self.proxy_port)
    }
}

/// What looking for a Simple Proxy Protocol header found.
#[derive(Debug)]
pub enum SppParseResult {
    Found { header: SppHeader, payload_offset: usize },
    NotPresent,
    Malformed(String),
}

/// The character of the decimal digit `d`.
pub open spec fn digit_char(d: nat) -> char {
    if d == 0 {
        '0'
    } else if d == 1 {
        '1'
    } else if d == 2 {
        '2'
    } else if d == 3 {
        '3'
    } else if d == 4 {
        '4'
    } else if d == 5 {
        '5'
    } else if d == 6 {
        '6'
    } else if d == 7 {
        '7'
    } else if d == 8 {
        '8'
    } else {
        '9'
    }
}

/// `n` written in decimal, without leading zeros.
pub open spec fn decimal(n: nat) -> Seq<char>
    decreases n,
{
    if n < 10 {
        seq![digit_char(n)]
    } else {
        decimal(n / 10).push(digit_char(n % 10))
    }
}

/// The complaint about a header of `len` bytes when `need` are needed.
pub open spec fn spp_too_small_text(len: usize, need: usize) -> Seq<char> {
    "SPP magic found but packet too small: "@ + decimal(len as nat) + " bytes, need "@ + decimal(need as nat)
}

/// Formats, with `format!`, the complaint about a header of `len` bytes
/// when `need` are needed. `format!` writes an integer in decimal, as `{}`
/// does for `usize`, so the text is `spp_too_small_text(len, need)`.
#[verifier::external_body]
fn spp_too_small_message(len: usize, need: usize) -> (r: String)
    ensures
        r@ == spp_too_small_text(len, need),
{
    format!("SPP magic found but packet too small: {} bytes, need {}", len, need)
}

/// Whether `data` opens with the two magic bytes 0x56 0xEC.
pub open spec fn spp_magic_at_start(data: Seq<u8>) -> bool {
    data.len() >= 2 && data[0] == 0x56 && data[1] == 0xEC
}

/// Parses the Simple Proxy Protocol header that supported UDP load balancers
/// put before the datagram, giving the real client address and where the
/// payload starts.
pub fn parse_spp_header(data: &[u8]) -> (r: SppParseResult)
    ensures
        !spp_magic_at_start(data@) ==> r is NotPresent,
        spp_magic_at_start(data@) && data@.len() < 38 ==> (r matches SppParseResult::Malformed(m)
            && m@ == spp_too_small_text(data@.len() as usize, 38)),
        spp_magic_at_start(data@) && data@.len() >= 38 ==> (r matches SppParseResult::Found {
            header,
            payload_offset,
        } && {
            &&& payload_offset == 38
            &&& header.client_addr == address_of(data@.subrange(2, 18))
            &&& header.proxy_addr == address_of(data@.subrange(18, 34))
            &&& header.client_port == u16_at(data@, 34)
            &&& header.proxy_port == u16_at(data@, 36)
        }),
{
    if data.len() < 2 {
        return SppParseResult::NotPresent;
    }
    let magic = get_u16(data, 0);
    let b0 = data[0];
    let b1 = data[1];
    assert(magic == 0x56ECu16 <==> (b0 == 0x56u8 && b1 == 0xECu8)) by (bit_vector)
        requires
            magic == ((b0 as u16) << 8u16) | (b1 as u16),
    ;
    if magic != SPP_MAGIC {
        return SppParseResult::NotPresent;
    }
    if data.len() < SPP_HEADER_SIZE {
        return SppParseResult::Malformed(spp_too_small_message(data.len(), SPP_HEADER_SIZE));
    }
    let client_addr_bytes = array16(data, 2);
    let client_addr = parse_address(&client_addr_bytes);
    let proxy_addr_bytes = array16(data, 18);
    let proxy_addr = parse_address(&proxy_addr_bytes);
    let client_port = get_u16(data, 34);
    let proxy_port = get_u16(data, 36);
    proof {
        lemma_address_of(client_addr_bytes);
        lemma_address_of(proxy_addr_bytes);
    }
    SppParseResult::Found {
        header: SppHeader { client_addr, client_port, proxy_addr, proxy_port },
        payload_offset: SPP_HEADER_SIZE,
    }
}

/// `address_of` agrees with what `parse_address` gives.
proof fn lemma_address_of(a: [u8; 16])
    ensures
        is_ipv4_mapped(a@) ==> address_of(a@) == IpAddr::V4(
            Ipv4Addr { octets: [a[12], a[13], a[14], a[15]] },
        ),
        !is_ipv4_mapped(a@) ==> address_of(a@) == IpAddr::V6(Ipv6Addr { octets: a }),
{
    if !is_ipv4_mapped(a@) {
        let c = choose|x: [u8; 16]| x@ == a@;
        assert(exists|x: [u8; 16]| x@ == a@);
        assert(c =~= a);
    }
}

/// Whether the datagram starts with the Simple Proxy Protocol magic bytes.
pub fn has_spp_magic(data: &[u8]) -> (r: bool)
    ensures
        r == spp_magic_at_start(data@),
{
    data.len() >= 2 && data[0] == 0x56 && data[1] == 0xEC
}

} // verus!
