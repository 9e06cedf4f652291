[package]
name = "runloop"
version = "0.1.0"
edition = "2021"
publish = false

[dependencies]
anyhow = "=1.0.104"
async-trait = "=0.1.92"
base64 = "=0.22.1"
blake3 = "=1.8.7"
clap = { version = "=4.6.7", features = ["derive"] }
crossterm = "=0.29.0"
dirs = "=7.0.0"
hex = "=0.4.3"
indexmap = "=2.14.2"
json-canon = "=0.1.3"
jsonschema = { version = "=0.60.2", default-features = false }
lru = "=0.19.0"
ratatui = "=0.30.2"
reqwest = { version = "=0.12.28", default-features = false, features = ["json"] }
rmp-serde = "=1.3.1"
rusqlite = { version = "=0.41.1", features = ["bundled"] }
serde = { version = "=1.0.229", features = ["derive"] }
serde_json = "=1.0.154"
serde_yaml = "=0.9.34"
sha2 = "=0.10.9"
shellexpand = "=3.1.2"
tokio = { version = "=1.54.1", features = ["full"] }
toml = "=0.8.23"
tracing = "=0.1.44"
tracing-subscriber = { version = "=0.3.23", features = ["env-filter"] }
uuid = { version = "=1.29.0", features = ["v4"] }
