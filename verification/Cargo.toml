[package]
name = "tower_lsp"
version = "0.1.0"
edition = "2021"
publish = false

[dependencies]
bytes = "1"
httparse = "1"
memchr = "2"
serde = { version = "1", features = ["derive"] }
serde_json = "1"
futures = "0.3"
dashmap = "5"
tokio = { version = "1", features = ["io-util", "io-std", "macros", "rt"] }
tokio-util = { version = "0.7", features = ["codec"] }
tower = { version = "0.4", features = ["util"] }
lsp-types = "0.94"
async-trait = "0.1"
log = "0.4"
tracing = "0.1"
async-weighted-semaphore = "0.2"
