[package]
name = "voxoxide"
version = "0.1.0"
edition = "2021"
publish = false

[dependencies]
anyhow = "1"
bytes = "1"
clap = { version = "4", features = ["derive"] }
clap-serde-derive = "0.2"
cpal = "*"
crossterm = "0.28"
derive_more = { version = "2", features = ["display", "error", "from_str"] }
directories-next = "2"
hound = "3"
opus = "0.3"
quinn = "0.11"
quinn-proto = "0.11"
rand = "0.9"
ratatui = "0.29"
rcgen = "0.14"
rustls = "0.23"
rvoip-rtp-core = "*"
serde = { version = "1", features = ["derive"] }
serde_json = "1"
serde_yaml = "0.9"
tokio = { version = "1", features = ["full"] }
tokio-util = { version = "0.7", features = ["rt"] }
tracing = "0.1"
tracing-subscriber = { version = "0.3", features = ["env-filter"] }
url = "2"
