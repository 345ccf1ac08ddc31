//! The plain values carried by BEP 15 messages.

use vstd::prelude::*;
use crate::net::{Ipv4Addr, Ipv6Addr};

verus! {

/// What a peer reports in an announce.
#[derive(PartialEq, Eq, Hash, Clone, Copy, Debug)]
pub enum AnnounceEvent {
    Started,
    Stopped,
    Completed,
    NoEvent,
}

/// The event that the wire number `i` stands for: 1 completed, 2 started,
/// 3 stopped, anything else no event.
pub open spec fn announce_event_of(i: i32) -> AnnounceEvent {
    if i == 1 {
        AnnounceEvent::Completed
    } else if i == 2 {
        AnnounceEvent::Started
    } else if i == 3 {
        AnnounceEvent::Stopped
    } else {
        AnnounceEvent::NoEvent
    }
}

/// The wire number of an event: none 0, completed 1, started 2, stopped 3.
pub open spec fn announce_event_number(e: AnnounceEvent) -> i32 {
    match e {
        AnnounceEvent::NoEvent => 0,
        AnnounceEvent::Completed => 1,
        AnnounceEvent::Started => 2,
        AnnounceEvent::Stopped => 3,
    }
}

impl AnnounceEvent {
    pub fn from_i32(i: i32) -> (r: Self)
        ensures
            r == announce_event_of(i),
    {
        match i {
            1 => Self::Completed,
            2 => Self::Started,
            3 => Self::Stopped,
            _ => Self::NoEvent,
        }
    }

    pub fn to_i32(&self) -> (r: i32)
        ensures
            r == announce_event_number(*self),
    {
        match self {
            AnnounceEvent::NoEvent => 0,
            AnnounceEvent::Completed => 1,
            AnnounceEvent::Started => 2,
            AnnounceEvent::Stopped => 3,
        }
    }
}

/// Reading back the number of an event gives the event.
pub proof fn lemma_announce_event_roundtrip(e: AnnounceEvent)
    ensures
        announce_event_of(announce_event_number(e)) == e,
{
}

/// The numbers 0 to 3 are exactly the numbers of events.
pub proof fn lemma_announce_event_numbers(i: i32)
    requires
        0 <= i <= 3,
    ensures
        announce_event_number(announce_event_of(i)) == i,
{
}

/// The event numbers of BEP 15: 0 none, 1 completed, 2 started, 3 stopped;
/// any other number reads as none.
pub proof fn lemma_event_numbers_fixed(i: i32)
    ensures
        announce_event_of(0) == AnnounceEvent::NoEvent,
        announce_event_of(1) == AnnounceEvent::Completed,
        announce_event_of(2) == AnnounceEvent::Started,
        announce_event_of(3) == AnnounceEvent::Stopped,
        !(0 <= i <= 3) ==> announce_event_of(i) == AnnounceEvent::NoEvent,
        announce_event_number(AnnounceEvent::NoEvent) == 0,
        announce_event_number(AnnounceEvent::Completed) == 1,
        announce_event_number(AnnounceEvent::Started) == 2,
        announce_event_number(AnnounceEvent::Stopped) == 3,
{
}

/// Marks the address types a response peer can carry.
pub trait Ip {}

impl Ip for Ipv4Addr {}

impl Ip for Ipv6Addr {}

#[derive(PartialEq, Eq, Hash, Clone, Copy, Debug)]
pub struct AnnounceInterval(pub i32);

#[derive(PartialEq, Eq, Hash, Clone, Copy, Debug, PartialOrd, Ord)]
pub struct InfoHash(pub [u8; 20]);

#[derive(PartialEq, Eq, Hash, Clone, Copy, Debug)]
pub struct ConnectionId(pub i64);

#[derive(PartialEq, Eq, Hash, Clone, Copy, Debug)]
pub struct TransactionId(pub i32);

#[derive(PartialEq, Eq, Hash, Clone, Copy, Debug)]
pub struct NumberOfBytes(pub i64);

#[derive(PartialEq, Eq, Hash, Clone, Copy, Debug)]
pub struct NumberOfPeers(pub i32);

#[derive(PartialEq, Eq, Hash, Clone, Copy, Debug)]
pub struct NumberOfDownloads(pub i32);

#[derive(PartialEq, Eq, Hash, Clone, Copy, Debug)]
pub struct Port(pub u16);

#[derive(PartialEq, Eq, Hash, Clone, Copy, Debug, PartialOrd, Ord)]
pub struct PeerId(pub [u8; 20]);

#[derive(PartialEq, Eq, Hash, Clone, Copy, Debug)]
pub struct PeerKey(pub u32);

impl View for InfoHash {
    type V = Seq<u8>;

    open spec fn view(&self) -> Seq<u8> {
        self.0@
    }
}

impl View for PeerId {
    type V = Seq<u8>;

    open spec fn view(&self) -> Seq<u8> {
        self.0@
    }
}

/// A peer in an announce response: its address and port.
#[derive(PartialEq, Eq, Clone, Copy, Debug)]
pub struct ResponsePeer<I: Ip> {
    pub ip_address: I,
    pub port: Port,
}

impl View for ResponsePeer<Ipv4Addr> {
    type V = (Seq<u8>, u16);

    open spec fn view(&self) -> (Seq<u8>, u16) {
        (self.ip_address.octets@, self.port.0)
    }
}

impl View for ResponsePeer<Ipv6Addr> {
    type V = (Seq<u8>, u16);

    open spec fn view(&self) -> (Seq<u8>, u16) {
        (self.ip_address.octets@, self.port.0)
    }
}

/// Seeders, completed downloads and leechers of one torrent.
#[derive(PartialEq, Eq, Debug, Copy, Clone)]
pub struct TorrentScrapeStatistics {
    pub seeders: NumberOfPeers,
    pub completed: NumberOfDownloads,
    pub leechers: NumberOfPeers,
}

/// Why the tracker refused a request.
#[derive(PartialEq, Eq, Structural, Clone, Copy, Debug)]
pub enum ServerError {
    InternalServerError,
    InvalidInfoHash,
    UnknownInfoHash,
    AddressNotFound,
    NoPeersFound,
    TorrentNotWhitelisted,
    TorrentBlacklisted,
    PeerNotAuthenticated,
    PeerKeyNotValid,
    ExceededInfoHashLimit,
    BadRequest,
    InvalidConnectionId,
    UnknownKey,
}

/// The message sent to the client for an error.
pub open spec fn server_error_text(e: ServerError) -> Seq<char> {
    match e {
        ServerError::InternalServerError => "internal server error"@,
        ServerError::InvalidInfoHash => "info_hash is either missing or invalid"@,
        ServerError::UnknownInfoHash => "info_hash unknown"@,
        ServerError::AddressNotFound => "could not find remote address"@,
        ServerError::NoPeersFound => "torrent has no peers"@,
        ServerError::TorrentNotWhitelisted => "torrent not on whitelist"@,
        ServerError::TorrentBlacklisted => "torrent blacklist"@,
        ServerError::PeerNotAuthenticated => "peer not authenticated"@,
        ServerError::PeerKeyNotValid => "invalid authentication key"@,
        ServerError::ExceededInfoHashLimit => "exceeded info_hash limit"@,
        ServerError::BadRequest => "bad request"@,
        ServerError::InvalidConnectionId => "invalid connection id"@,
        ServerError::UnknownKey => "unknown key"@,
    }
}

impl ServerError {
    /// The message sent to the client for this error.
    pub fn message(&self) -> (r: &'static str)
        ensures
            r@ == server_error_text(*self),
    {
        match self {
            ServerError::InternalServerError => "internal server error",
            ServerError::InvalidInfoHash => "info_hash is either missing or invalid",
            ServerError::UnknownInfoHash => "info_hash unknown",
            ServerError::AddressNotFound => "could not find remote address",
            ServerError::NoPeersFound => "torrent has no peers",
            ServerError::TorrentNotWhitelisted => "torrent not on whitelist",
            ServerError::TorrentBlacklisted => "torrent blacklist",
            ServerError::PeerNotAuthenticated => "peer not authenticated",
            ServerError::PeerKeyNotValid => "invalid authentication key",
            ServerError::ExceededInfoHashLimit => "exceeded info_hash limit",
            ServerError::BadRequest => "bad request",
            ServerError::InvalidConnectionId => "invalid connection id",
            ServerError::UnknownKey => "unknown key",
        }
    }
}

} // verus!
