[package]
name = "bhatho"
version = "0.1.0"
edition = "2021"
publish = false

[dependencies]
crossbeam-channel = "0.5"
jumphash = "*"
log = "0.4"
lru = "0.7"
parking_lot = "0.12"
regex = "1"
rocksdb = { version = "*", default-features = false }
serde = { version = "1", features = ["derive"] }
serde_derive = "1"
twox-hash = "1"

[dev-dependencies]
rand = "0.7"
scoped_threadpool = "0.1"
