//! A BitTorrent tracker core: the BEP 15 UDP wire format, the Simple Proxy
//! Protocol header, connection ids, and the in-memory torrent, peer, list and
//! statistics stores, each with its contract.

pub mod codec;
pub mod common;
pub mod net;
pub mod udp;
pub mod udp_common;
pub mod tracker;
pub mod tracker_channels;
pub mod tracker_objects;
