[package]
name = "torrust_actix"
version = "0.1.0"
edition = "2021"
publish = false

[dependencies]
ring = "0.17"
hex = "0.4"
tokio = { version = "1", features = ["rt-multi-thread", "net", "sync", "time", "macros"] }
serde = { version = "1", features = ["derive"] }
serde_json = "1"
log = "0.4"
chrono = "0.4"
thiserror = "*"
byteorder = "1"
either = "1"
smallvec = "1"
socket2 = "*"
libc = "0.2"
crossbeam = "0.8"
crossbeam-queue = "0.3"
parking_lot = "0.12"
ahash = "0.8"
tracing = "0.1"
sentry = { version = "*", default-features = false }
async-std = "1"
io-uring = "*"
windows-sys = "*"
