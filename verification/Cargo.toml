[package]
name = "jwksproxy"
version = "0.1.0"
edition = "2021"
publish = false

[dependencies]
anyhow = "=1.0.104"
arc-swap = "=1.9.3"
axum = "=0.7.9"
base64 = "=0.22.1"
clap = { version = "=4.6.7", features = ["derive"] }
ecdsa = { version = "=0.16.9", features = ["signing", "verifying", "der"] }
p256 = { version = "=0.13.2", features = ["ecdsa", "pkcs8"] }
p384 = { version = "=0.13.1", features = ["ecdsa", "pkcs8"] }
p521 = { version = "=0.13.3", features = ["ecdsa", "pkcs8"] }
rand_core = { version = "=0.6.4", features = ["getrandom"] }
reqwest = { version = "=0.12.28", default-features = false, features = ["json", "rustls-tls"] }
rsa = "=0.9.10"
serde = { version = "=1.0.229", features = ["derive"] }
serde_json = { version = "=1.0.154", features = ["float_roundtrip"] }
sha2 = { version = "=0.10.9", features = ["oid"] }
tokio = { version = "=1.54.1", features = ["macros", "rt-multi-thread", "net"] }
toml = "=0.8.23"
tower-http = { version = "=0.6.11", features = ["trace"] }
tracing = "=0.1.44"
tracing-subscriber = { version = "=0.3.23", features = ["env-filter", "fmt"] }
x509-cert = { version = "=0.2.5", features = ["builder"] }
