[package]
name = "bangumi_download"
version = "0.1.0"
edition = "2021"
publish = false

[dependencies]
unicode-segmentation = "1"
num-bigint = "0.4"
num-traits = "0.2"
rand = "0.9"
regex = "1"
reqwest = { version = "0.12", default-features = false, features = ["json", "rustls-tls"] }
reqwest-middleware = "0.4"
reqwest-retry = "0.7"
tokio = { version = "1", features = ["full"] }
ratatui = "0.29"
tui-logger = "0.14"
serde = { version = "1", features = ["derive"] }
serde_json = "1"
bincode = "2"
bitcode = "0.6"
quick-xml = { version = "0.37", features = ["serialize"] }
scraper = "0.22"
futures = "0.3"
arc-swap = "1"
once_cell = "1"
clap = { version = "4", features = ["derive"] }
ctrlc = "3"
qrcode = { version = "0.14", default-features = false }
base64 = "0.22"
sha1 = "0.10"
strum = { version = "0.26", features = ["derive"] }
thiserror = "2"
tokio-retry = "0.3"
log = "0.4"
chrono = { version = "0.4", features = ["serde"] }
