[package]
name = "banzhu-spider"
version = "0.3.0"
edition = "2021"
publish = false

[dependencies]
regex = "=1.13.1"
scraper = "=0.29.0"
base64 = "=0.22.1"
md5 = "=0.7.0"
aes = "=0.8.4"
cbc = { version = "=0.1.2", features = ["block-padding", "alloc"] }
cipher = { version = "=0.4.4", features = ["block-padding", "alloc"] }
encoding = "=0.2.33"
rand = "=0.9.5"
rand_core = "=0.9.5"
anyhow = "=1.0.104"
chrono = "=0.4.45"
clap = { version = "=4.6.7", features = ["derive"] }
rusqlite = { version = "=0.41.1", features = ["bundled"] }
config = { version = "=0.15.27", default-features = false, features = ["toml"] }
zip = { version = "=2.6.1", default-features = false, features = ["deflate"] }
serde = { version = "=1.0.229", features = ["derive"] }
serde_json = "=1.0.154"
epub = "=2.1.6"
epub-builder = "=0.8.3"
reqwest = { version = "=0.12.28", default-features = false, features = ["blocking", "rustls-tls", "gzip", "deflate", "zstd"] }
