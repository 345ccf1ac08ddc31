//! The BEP 15 UDP tracker protocol: messages, their byte layout, the Simple
//! Proxy Protocol header and the server's decisions.

pub mod types;
pub mod request;
pub mod response;
pub mod server;
pub mod parse_pool;
pub mod announce;
#[allow(clippy::module_inception)]
pub mod udp;
