[package]
name = "nozomi_video_streamer"
version = "0.1.0"
edition = "2021"
publish = false

[dependencies]
percent-encoding = "=2.3.2"
base64 = "=0.23.1"
warp = { version = "=0.3.7", default-features = false }
tokio = { version = "*", features = ["full"] }
tokio-util = { version = "*", features = ["codec"] }
bytes = "*"
futures-util = "*"
hyper = "=0.14.32"
log = "*"
env_logger = "*"
chrono = "*"
structopt = "*"
serde = "*"
serde_derive = "*"
serde_json = "*"
tempfile = "*"
reqwest = { version = "*", default-features = false }
anyhow = "*"
