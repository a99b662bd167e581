[package]
name = "hoosh"
version = "0.1.0"
edition = "2021"
publish = false

[dependencies]
shlex = "=1.3.0"
indexmap = "=2.14.2"
serde = { version = "=1.0.229", features = ["derive"] }
serde_json = "=1.0.154"
tokio = { version = "=1.54.1", features = ["process", "time", "rt", "macros", "io-util", "sync", "fs"] }
anyhow = "=1.0.104"
thiserror = "=2.0.21"
walkdir = "=2.5.0"
glob = "=0.3.4"
which = "=8.0.6"
similar = "=2.7.0"
colored = "=3.1.1"
rand = "0.8"

[dev-dependencies]
tempfile = "=3.27.0"
