[package]
name = "place_downloader"
version = "0.1.0"
edition = "2021"
publish = false

[dependencies]
async-recursion = "1"
base64 = "0.21"
colored = "2"
dirs = "5"
env_logger = "0.10"
log = "0.4"
rand = "0.8"
reqwest = { version = "0.11", default-features = false, features = ["cookies", "rustls-tls"] }
serde = { version = "1", features = ["derive"] }
serde_derive = "1"
serde_json = "1"
tokio = { version = "1", features = ["macros", "rt-multi-thread"] }
