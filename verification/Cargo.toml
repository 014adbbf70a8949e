[package]
name = "arbitrage_core"
version = "0.1.0"
edition = "2021"
publish = false

[dependencies]
rust_decimal = "=1.43.0"
serde = { version = "=1.0.229", features = ["derive"] }
serde_json = "=1.0.154"
hmac = "=0.12.1"
sha2 = "=0.10.9"
hex = "=0.4.3"
ntex = { version = "2", features = ["tokio", "rustls"] }
rustls = { version = "0.23", default-features = false, features = ["ring", "std", "tls12"] }
webpki-roots = "*"
async-channel = "2"
async-broadcast = "*"
futures = "0.3"
num_cpus = "1"
ratelimit = "*"
url = "2"
