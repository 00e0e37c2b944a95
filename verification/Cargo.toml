[package]
name = "podcast_player"
version = "0.1.0"
edition = "2021"
publish = false

[dependencies]
url = "=2.5.8"
regex = "=1.13.1"
rss = "=1.10.0"
reqwest = "=0.10.10"
tokio = { version = "=0.2.25", features = ["fs", "io-util", "sync", "rt-threaded"] }
iced = { version = "=0.2.0", features = ["tokio_old"] }
iced_futures = "=0.2.0"
sled = "=0.34.7"
serde = { version = "=1.0.229", features = ["derive"] }
bincode = "1"
eyre = "=0.6.14"
log = "=0.4.34"
thiserror = "=1.0.69"
