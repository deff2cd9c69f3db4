[package]
name = "hammeregg"
version = "0.1.0"
edition = "2021"
publish = false

[dependencies]
rsa = "=0.9.10"
sha2 = "0.10"
aes-gcm = "0.10"
rand_chacha = "=0.3.1"
zeroize = "=1.9.1"
futures = "=0.3.34"
bson = "=3.1.0"
serde = { version = "=1.0.229", features = ["derive"] }
clap = { version = "=4.6.7", features = ["derive"] }
tokio = { version = "=1.53.2", features = ["rt", "rt-multi-thread", "net", "macros", "sync", "time"] }
tokio-rustls = "=0.26.6"
tokio-tungstenite = { version = "=0.30.0", features = ["rustls-tls-webpki-roots"] }
rustls-pemfile = "=2.2.0"
webpki-roots = "=1.0.9"
url = "=2.5.8"
parking_lot = "=0.12.5"
