[package]
name = "binstall"
version = "0.1.0"
edition = "2021"
publish = false

[dependencies]
bytes = "=1.12.1"
cargo_toml = "=0.14.1"
dirs = "=4.0.0"
flate2 = "=1.1.10"
futures-util = "=0.3.34"
log = "=0.4.34"
reqwest = { version = "=0.11.27", default-features = false, features = ["rustls-tls", "stream"] }
scopeguard = "=1.2.0"
serde = { version = "=1.0.229", features = ["derive"] }
tar = "=0.4.46"
tinytemplate = "=1.2.1"
tokio = { version = "=1.54.1", features = ["rt", "rt-multi-thread", "sync", "macros"] }
url = "=2.5.8"
xz2 = "=0.1.7"
zip = "=6.0.0"
zstd = "=0.13.3"
