[package]
name = "dig_blockstore"
version = "0.1.0"
edition = "2021"
publish = false

[dependencies]
zstd = "=0.13.4"
chia-sha2 = "=0.26.0"
chia-protocol = "=0.26.0"
chia-traits = "=0.26.0"
chia-bls = "=0.26.0"
dig-block = "=0.2.1"
dig-constants = "=0.13.1"
bincode = "=1.3.3"
serde = { version = "=1.0.229", features = ["derive"] }
rocksdb = "=0.22.0"
memmap2 = "=0.9.12"
lru = "=0.12.5"
parking_lot = "=0.12.5"
thiserror = "=1.0.69"
rand = "=0.8.8"
tokio = { version = "=1.54.1", features = ["sync", "rt", "time", "macros"] }
