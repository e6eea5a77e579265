[package]
name = "idx"
version = "0.1.0"
edition = "2021"
publish = false

[dependencies]
clap = { version = "4", features = ["derive"] }
crossbeam-channel = "0.5"
hashbrown = "0.14"
html2text = "0.12"
num-traits = "0.2"
serde = { version = "1", features = ["derive"] }
serde_json = "1"
thiserror = "1"
tokio = { version = "1", features = ["fs", "io-util", "macros", "rt", "rt-multi-thread", "time"] }
xxhash-rust = { version = "0.8", features = ["xxh3"] }
