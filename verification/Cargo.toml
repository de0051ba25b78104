[package]
name = "cxkitty"
version = "0.1.0"
edition = "2021"
publish = false

[dependencies]
aes = "0.8"
cbc = { version = "0.1", features = ["alloc", "block-padding"] }
base64 = "0.22"
md-5 = "0.10"
rand = "0.8"
regex = "1"
scraper = "0.20"
url = "2"
serde = { version = "1", features = ["derive"] }
serde_json = "1"
reqwest = { version = "0.12", default-features = false, features = ["json", "cookies", "rustls-tls"] }
reqwest_cookie_store = "0.8"
cookie_store = "0.21"
tokio = { version = "1", features = ["time", "rt", "macros"] }
parking_lot = "0.12"
thiserror = "1"
