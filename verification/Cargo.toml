[package]
name = "capsule"
version = "0.1.0"
edition = "2021"
publish = false

[dependencies]
age = "0.11"
bip39 = { version = "2", features = ["rand"] }
clap = { version = "4", features = ["derive"] }
clap_complete = "4"
dirs = "6"
futures-util = "0.3"
indicatif = "0.17"
inquire = "0.7"
qrcode = "0.14"
reqwest = { version = "0.12", default-features = false, features = ["charset", "http2", "multipart", "rustls-tls", "stream"] }
serde = { version = "1", features = ["derive"] }
serde_json = "1"
tokio = { version = "1", features = ["fs", "io-util", "macros", "rt-multi-thread"] }
tokio-util = { version = "0.7", features = ["io"] }
