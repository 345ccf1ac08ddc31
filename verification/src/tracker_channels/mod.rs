//! The tracker run as a set of actors: each owns part of the state and
//! answers one request at a time. Here stand the state of each actor and the
//! step that answers a request; carrying requests and replies between tasks
//! is left to the caller.

pub mod stats;
pub mod store;
pub mod torrents;
pub mod torrents_peers;
pub mod updates_shadow;
pub mod whitelist_blacklist_keys;
