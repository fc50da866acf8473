[package]
name = "kecs"
version = "0.1.0"
edition = "2021"
publish = false

[dependencies]
anyhow = "1"
blake2 = "0.10"
blake3 = { version = "1", features = ["pure"] }
byteorder = "1"
clap = { version = "4", features = ["derive"] }
crc32fast = "1"
glob = "0.3"
hex = "0.4"
indicatif = "0.17"
md-5 = "0.10"
progress-streams = "1"
serde = { version = "1", features = ["derive"] }
serde_derive = "1"
serde_json = "1"
sha1 = "0.10"
sha2 = "0.10"
sha3 = "0.10"
strum = "0.26"
strum_macros = "0.26"
tracing = "0.1"
tracing-subscriber = { version = "0.3", features = ["env-filter"] }
walkdir = "2"
