[package]
name = "aether"
version = "0.1.0"
edition = "2021"
publish = false

[dependencies]
hmac = "0.12"
sha2 = "0.10"
hex = "0.4"
serde = { version = "1", features = ["derive"] }
serde_json = "1"
uuid = { version = "1", features = ["v4"] }
urlencoding = "2"
tokio = { version = "1", features = ["full"] }
async-trait = "0.1"
nix = { version = "0.29", features = ["signal", "process"] }
tempfile = "3"
log = "0.4"
env_logger = "0.11"
tracing = "0.1"
tracing-subscriber = "0.3"
thiserror = "2"
futures = "0.3"
reqwest = { version = "0.12", default-features = false, features = ["json", "rustls-tls"] }
axum = "0.7"
tonic = { version = "0.14", features = ["tls-ring"] }
rcgen = { version = "0.14", default-features = false, features = ["crypto", "ring", "pem"] }
rustls-pemfile = "2"
rustls-pki-types = "1"
tokio-rustls = { version = "0.26", default-features = false, features = ["ring", "tls12", "logging"] }
rtnetlink = "*"
rustables = "*"
tun-rs = "*"
