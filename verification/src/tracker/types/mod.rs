//! Queues of changes waiting to be written to storage.

pub mod torrents_updates;
