[package]
name = "local_memory"
version = "0.1.0"
edition = "2021"
publish = false

[dependencies]
anyhow = "=1.0.104"
async-trait = "=0.1.92"
bincode = "=1.3.3"
bitvec = "=1.1.1"
candle-core = "*"
candle-nn = "*"
candle-transformers = "*"
clap = { version = "=4.6.7", features = ["derive"] }
colored = "=3.1.1"
edgequake-llm = { version = "=0.10.9", default-features = false }
fjall = "=3.1.12"
futures-util = "=0.3.34"
indicatif = "=0.18.6"
reqwest = { version = "=0.12.28", default-features = false, features = ["blocking", "json", "stream", "rustls-tls"] }
rusqlite = { version = "=0.41.0", features = ["bundled"] }
serde = { version = "=1.0.229", features = ["derive"] }
serde_json = "=1.0.154"
simsimd = "=6.5.16"
sqlite-vec = "=0.1.9"
tabled = "=0.22.0"
tokenizers = "*"
tokio = { version = "=1.54.1", features = ["rt-multi-thread", "macros", "sync"] }
uuid = { version = "=1.29.0", features = ["v4", "serde"] }
zerocopy = "=0.8.63"
