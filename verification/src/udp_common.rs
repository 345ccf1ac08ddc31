//! Helpers of the UDP tracker: the clock, the time-based
//! connection id, and numbers written in as few big-endian bytes as they
//! need.

use vstd::prelude::*;
use crate::codec::{lemma_u64_roundtrip, put_u64, u64_at, u64_be_bytes};
use crate::net::SocketAddr;
use crate::codec::IoError;
use crate::udp::request::{
    AnnounceModel, ParseFailure, Request, RequestModel, RequestParseError, parse_request, slice_subrange,
};
use crate::udp::types::ConnectionId;

verus! {

/// Reads the system clock with `SystemTime::now` as whole seconds since the
/// Unix epoch; `None` when the clock stands before the epoch. Nothing is
/// promised of the value, which is the time.
#[verifier::external_body]
fn secs_since_epoch() -> (r: Option<u64>) {
    match std::time::SystemTime::now().duration_since(std::time::UNIX_EPOCH) {
        Ok(d) => Some(d.as_secs()),
        Err(_) => None,
    }
}

/// The current time in whole seconds since the Unix epoch; a clock that
/// stands before the epoch reads as 0.
pub fn current_time() -> (r: u64) {
    match secs_since_epoch() {
        Some(t) => t,
        None => 0,
    }
}

/// The time-based connection id of a sender on `port` at `now` (seconds
/// since the epoch, `None` for a clock before the epoch): the hour in the
/// low bits, the port from bit 36 up; `i64::MAX` without a clock.
pub open spec fn timed_connection_id(port: u16, now: Option<u64>) -> i64 {
    match now {
        Some(t) => ((t / 3600) | ((port as u64) << 36u64)) as i64,
        None => i64::MAX,
    }
}

/// The time-based connection id of `port` at `now`; see
/// `timed_connection_id`.
pub fn connection_id_at(port: u16, now: Option<u64>) -> (r: ConnectionId)
    ensures
        r.0 == timed_connection_id(port, now),
{
    match now {
        Some(t) => ConnectionId(((t / 3600) | ((port as u64) << 36u64)) as i64),
        None => ConnectionId(0x7FFFFFFFFFFFFFFF),
    }
}

/// The time-based connection id of `remote_address` now.
pub fn get_connection_id(remote_address: &SocketAddr) -> (r: ConnectionId)
    ensures
        exists|now: Option<u64>| r.0 == timed_connection_id(remote_address.port, now),
{
    let now = secs_since_epoch();
    let r = connection_id_at(remote_address.port, now);
    assert(r.0 == timed_connection_id(remote_address.port, now));
    r
}

/// `s` with zeros in front, to eight bytes.
pub open spec fn pad8(s: Seq<u8>) -> Seq<u8> {
    Seq::new((8 - s.len()) as nat, |i: int| 0u8) + s
}

/// The number that up to eight big-endian bytes spell.
pub open spec fn bytes_value(s: Seq<u8>) -> u64 {
    u64_at(pad8(s), 0)
}

/// Where the shortest form of the eight bytes `b` starts: at the first
/// byte from `i` on that is not zero, but no later than the last byte.
pub open spec fn first_nonzero_from(b: Seq<u8>, i: int) -> int
    decreases 7 - i,
{
    if i >= 7 || b[i] != 0 {
        i
    } else {
        first_nonzero_from(b, i + 1)
    }
}

/// `number` in as few big-endian bytes as it needs: at least one, and no
/// zero byte in front.
pub open spec fn shortest_bytes(number: u64) -> Seq<u8> {
    let b = u64_be_bytes(number);
    b.subrange(first_nonzero_from(b, 0), 8)
}

/// Writes `number` in as few big-endian bytes as it needs.
pub fn convert_int_to_bytes(number: u64) -> (r: Vec<u8>)
    ensures
        r@ == shortest_bytes(number),
{
    let mut full: Vec<u8> = Vec::new();
    put_u64(&mut full, number);
    assert(full@ =~= u64_be_bytes(number));
    let mut z: usize = 0;
    while z < 7 && full[z] == 0
        invariant
            z <= 7,
            full@ == u64_be_bytes(number),
            first_nonzero_from(full@, 0) == first_nonzero_from(full@, z as int),
        decreases 7 - z,
    {
        z = z + 1;
    }
    slice_subrange(full.as_slice(), z, 8)
}

/// The shortest form holds one to eight bytes, starts with a byte that is
/// not zero unless it is a single byte, and reads back as the number.
pub proof fn lemma_shortest_bytes(number: u64)
    ensures
        1 <= shortest_bytes(number).len() <= 8,
        shortest_bytes(number).len() == 1 || shortest_bytes(number)[0] != 0,
        bytes_value(shortest_bytes(number)) == number,
{
    let b = u64_be_bytes(number);
    lemma_first_nonzero_from(b, 0);
    let z = first_nonzero_from(b, 0);
    let s = shortest_bytes(number);
    assert(pad8(s) =~= b);
    lemma_u64_roundtrip(Seq::empty(), number, Seq::empty());
    assert(b =~= Seq::<u8>::empty() + u64_be_bytes(number) + Seq::<u8>::empty());
}

proof fn lemma_first_nonzero_from(b: Seq<u8>, i: int)
    requires
        0 <= i <= 7,
        b.len() == 8,
        forall|j: int| 0 <= j < i ==> b[j] == 0,
    ensures
        i <= first_nonzero_from(b, i) <= 7,
        forall|j: int| 0 <= j < first_nonzero_from(b, i) ==> b[j] == 0,
        first_nonzero_from(b, i) < 7 ==> b[first_nonzero_from(b, i)] != 0,
    decreases 7 - i,
{
    if i < 7 && b[i] == 0 {
        lemma_first_nonzero_from(b, i + 1);
    }
}

/// The number that up to eight big-endian bytes spell.
pub fn convert_bytes_to_int(array: &Vec<u8>) -> (r: u64)
    requires
        array@.len() <= 8,
    ensures
        r == bytes_value(array@),
{
    let size = 8 - array.len();
    let mut fixed: Vec<u8> = Vec::new();
    let mut i: usize = 0;
    while i < size
        invariant
            i <= size,
            size == 8 - array@.len(),
            fixed@ == Seq::new(i as nat, |j: int| 0u8),
        decreases size - i,
    {
        fixed.push(0);
        i = i + 1;
        assert(fixed@ =~= Seq::new(i as nat, |j: int| 0u8));
    }
    let mut j: usize = 0;
    while j < array.len()
        invariant
            j <= array@.len(),
            size == 8 - array@.len(),
            fixed@ == Seq::new(size as nat, |k: int| 0u8) + array@.subrange(0, j as int),
        decreases array@.len() - j,
    {
        fixed.push(array[j]);
        j = j + 1;
        assert(fixed@ =~= Seq::new(size as nat, |k: int| 0u8) + array@.subrange(0, j as int));
    }
    assert(array@.subrange(0, array@.len() as int) =~= array@);
    assert(fixed@ =~= pad8(array@));
    crate::codec::get_u64(fixed.as_slice(), 0)
}

/// Writing a number in its shortest form and reading it back gives the
/// number: what `convert_int_to_bytes` writes, `convert_bytes_to_int` reads
/// back unchanged.
pub proof fn lemma_int_bytes_roundtrip(number: u64)
    ensures
        shortest_bytes(number).len() <= 8,
        bytes_value(shortest_bytes(number)) == number,
{
    lemma_shortest_bytes(number);
}


/// What the plain BEP 15 request parser gives: what `parse_request` gives,
/// except that a datagram shorter than the 16-byte header fails as a read
/// past its end, and that an announce carries no path.
pub open spec fn plain_parse_request(b: Seq<u8>, max: u8) -> Result<RequestModel, RequestParseError> {
    if b.len() < 16 {
        Err(RequestParseError::Unsendable { err: ParseFailure::Io(IoError::UnexpectedEof) })
    } else {
        match parse_request(b, max) {
            Ok(RequestModel::Announce(a)) => Ok(RequestModel::Announce(AnnounceModel { path: Seq::empty(), ..a })),
            r => r,
        }
    }
}

/// Parses a request with the plain BEP 15 parser; see
/// `plain_parse_request`.
pub fn parse_plain_request(bytes: &[u8], max_scrape_torrents: u8) -> (res: Result<Request, RequestParseError>)
    ensures
        match res {
            Ok(r) => plain_parse_request(bytes@, max_scrape_torrents) == Ok::<RequestModel, RequestParseError>(r@),
            Err(e) => plain_parse_request(bytes@, max_scrape_torrents) == Err::<RequestModel, RequestParseError>(e),
        },
{
    if bytes.len() < 16 {
        return Err(RequestParseError::unsendable_io(IoError::UnexpectedEof));
    }
    match Request::from_bytes(bytes, max_scrape_torrents) {
        Ok(Request::Announce(a)) => {
            let mut a = a;
            a.path = String::new();
            Ok(Request::Announce(a))
        },
        other => other,
    }
}

} // verus!
