//! The tracker held in memory: torrents and their peers, the lists, pending
//! updates, users and statistics, changed by direct calls.

pub mod stats;
pub mod torrents;
pub mod updates;
pub mod peers;
pub mod users;
pub mod users_shadow;
pub mod whitelist;
pub mod laws;
pub mod counts;
