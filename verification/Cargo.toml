[package]
name = "pam"
version = "1.0.0"
edition = "2021"
publish = false

[dependencies]
base64 = "0.22"
bytes = "1"
ed25519-dalek = "2"
http = "1"
http-body-util = "0.1"
hyper = { version = "1", features = ["client", "http1", "http2"] }
hyper-rustls = { version = "0.27", default-features = false, features = ["ring", "http1", "http2", "webpki-roots", "tls12"] }
hyper-util = { version = "0.1", features = ["client-legacy", "http1", "http2", "tokio"] }
libc = "0.2"
semver = "1"
serde = { version = "1", features = ["derive"] }
serde_json = "1"
sha2 = "0.10"
tokio = { version = "1", features = ["rt-multi-thread", "macros", "sync", "time"] }
toml = "0.8"

[dev-dependencies]
ed25519-dalek = { version = "2", features = ["rand_core"] }
