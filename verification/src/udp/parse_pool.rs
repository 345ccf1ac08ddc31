//! What the packet workers decide for each datagram before it reaches the
//! request pipeline: whose address it carries and which part is the request.

use vstd::prelude::*;
use crate::codec::u16_at;
use crate::net::{IpAddr, SocketAddr};
use crate::udp::udp::{SppParseResult, address_of, parse_spp_header, spp_magic_at_start};

verus! {

/// Counters that describe the packet queue.
#[derive(Debug, Clone, Copy)]
pub struct ParsePoolStats {
    pub current_size: usize,
    pub current_capacity: usize,
    pub segments: usize,
    pub high_water_mark: usize,
    pub grow_count: usize,
    pub drops: usize,
}

/// Whether two addresses are the same.
pub fn ip_eq(a: &IpAddr, b: &IpAddr) -> (r: bool)
    ensures
        r == (*a == *b),
{
    match (a, b) {
        (IpAddr::V4(x), IpAddr::V4(y)) => {
            let r = x.octets[0] == y.octets[0] && x.octets[1] == y.octets[1] && x.octets[2] == y.octets[2]
                && x.octets[3] == y.octets[3];
            proof {
                if r {
                    assert(x.octets@ =~= y.octets@);
                    assert(x.octets =~= y.octets);
                }
            }
            r
        },
        (IpAddr::V6(x), IpAddr::V6(y)) => {
            let mut i: usize = 0;
            let mut same = true;
            while i < 16
                invariant
                    i <= 16,
                    same <==> forall|j: int| 0 <= j < i ==> x.octets@[j] == y.octets@[j],
                decreases 16 - i,
            {
                if x.octets[i] != y.octets[i] {
                    same = false;
                }
                i = i + 1;
            }
            proof {
                if same {
                    assert(x.octets@ =~= y.octets@);
                    assert(x.octets =~= y.octets);
                }
            }
            same
        },
        _ => false,
    }
}

/// Whether `ip` is among `list`.
pub fn ip_listed(list: &Vec<IpAddr>, ip: &IpAddr) -> (r: bool)
    ensures
        r == list@.contains(*ip),
{
    let mut i: usize = 0;
    while i < list.len()
        invariant
            i <= list@.len(),
            forall|j: int| 0 <= j < i ==> list@[j] != *ip,
        decreases list@.len() - i,
    {
        if ip_eq(&list[i], ip) {
            assert(list@[i as int] == *ip);
            return true;
        }
        i = i + 1;
    }
    false
}

/// Whether a sender may speak for another address: any sender when no proxy
/// is listed, else only a listed one.
pub open spec fn sender_trusted(proxy_addrs: Seq<IpAddr>, sender: IpAddr) -> bool {
    proxy_addrs.len() == 0 || proxy_addrs.contains(sender)
}

/// The address a datagram from `remote` speaks for, and where its request
/// starts: a trusted sender's well-formed Simple Proxy Protocol header gives
/// the client's address and the bytes after it; anything else leaves the
/// sender's address and the whole datagram.
pub open spec fn spp_effective(remote: SocketAddr, data: Seq<u8>, proxy_addrs: Seq<IpAddr>) -> (SocketAddr, int) {
    if sender_trusted(proxy_addrs, remote.ip) && spp_magic_at_start(data) && data.len() >= 38 {
        (SocketAddr { ip: address_of(data.subrange(2, 18)), port: u16_at(data, 34) }, 38)
    } else {
        (remote, 0)
    }
}

/// Resolves the client address of a datagram that may carry a Simple Proxy
/// Protocol header, and gives the part that holds the request. The header is
/// unauthenticated, so it is honoured only from the senders in `proxy_addrs`,
/// or from any sender when that list is empty.
pub fn extract_spp_info<'a>(remote_addr: &SocketAddr, data: &'a [u8], proxy_addrs: &Vec<IpAddr>) -> (r: (
    SocketAddr,
    &'a [u8],
))
    ensures
        r.0 == spp_effective(*remote_addr, data@, proxy_addrs@).0,
        r.1@ == data@.subrange(spp_effective(*remote_addr, data@, proxy_addrs@).1, data@.len() as int),
{
    if proxy_addrs.len() != 0 && !ip_listed(proxy_addrs, &remote_addr.ip) {
        assert(data@.subrange(0, data@.len() as int) =~= data@);
        return (*remote_addr, data);
    }
    match parse_spp_header(data) {
        SppParseResult::Found { header, payload_offset } => {
            let payload = vstd::slice::slice_subrange(data, payload_offset, data.len());
            (header.client_socket_addr(), payload)
        },
        _ => {
            assert(data@.subrange(0, data@.len() as int) =~= data@);
            (*remote_addr, data)
        },
    }
}

/// Whether the address field of an announce may be honoured: only when the
/// server is set to use it, and only from a listed proxy, or from anyone
/// when no proxy is listed.
pub fn payload_ip_allowed(use_payload_ip: bool, proxy_addrs: &Vec<IpAddr>, remote_ip: &IpAddr) -> (r: bool)
    ensures
        r == (use_payload_ip && sender_trusted(proxy_addrs@, *remote_ip)),
{
    use_payload_ip && (proxy_addrs.len() == 0 || ip_listed(proxy_addrs, remote_ip))
}

} // verus!
