//! Values shared by the tracker's stores: a peer as the tracker remembers it,
//! and a user's id.

use vstd::prelude::*;
use crate::net::SocketAddr;
use crate::udp::types::{AnnounceEvent, NumberOfBytes, PeerId};

verus! {

/// A peer of a torrent as the tracker remembers it from its last announce.
/// `updated` is when that announce came, in milliseconds on the clock that
/// the caller keeps.
#[derive(Clone, Copy, Debug)]
pub struct TorrentPeer {
    pub peer_id: PeerId,
    pub peer_addr: SocketAddr,
    pub updated: u64,
    pub uploaded: NumberOfBytes,
    pub downloaded: NumberOfBytes,
    pub left: NumberOfBytes,
    pub event: AnnounceEvent,
}

impl TorrentPeer {
    /// Whether the peer has the whole torrent.
    pub open spec fn is_seed(self) -> bool {
        self.left.0 == 0
    }
}

/// The 20-byte key of a user.
#[derive(PartialEq, Eq, Hash, Clone, Copy, Debug, PartialOrd, Ord)]
pub struct UserId(pub [u8; 20]);

impl View for UserId {
    type V = Seq<u8>;

    open spec fn view(&self) -> Seq<u8> {
        self.0@
    }
}

} // verus!
