[package]
name = "routeros_exporter"
version = "0.1.0"
edition = "2021"
publish = false

[dependencies]
serde_json = "1"
serde = { version = "1", features = ["derive"] }
serde-aux = "*"
secrecy = { version = "0.8", features = ["serde"] }
config = { version = "0.11", default-features = false, features = ["toml"] }
reqwest = { version = "0.11", default-features = false, features = ["json", "rustls-tls"] }
tokio = { version = "1", features = ["full"] }
warp = { version = "0.3", default-features = false }
futures = "0.3"
lazy_static = "1"
