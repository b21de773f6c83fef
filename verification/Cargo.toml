[package]
name = "rurl"
version = "0.1.0"
edition = "2021"
publish = false

[dependencies]
aes = "*"
aes-gcm = "*"
base64 = "*"
cbc = { version = "*", features = ["alloc", "block-padding"] }
clap = "*"
dirs = "*"
encoding_rs = "*"
env_logger = "*"
futures-util = "*"
log = "*"
pbkdf2 = { version = "*", features = ["hmac"] }
reqwest = { version = "*", default-features = false, features = ["rustls-tls", "stream"] }
rusqlite = { version = "*", features = ["bundled"] }
serde_json = "*"
sha1 = "*"
tempfile = "*"
thiserror = "*"
tokio = { version = "*", features = ["rt", "rt-multi-thread", "time", "macros"] }
url = "*"
