[package]
name = "xmrigcc_proxy_monitor"
version = "0.1.0"
edition = "2021"
publish = false

[dependencies]
chrono = "=0.4.45"
iced = { version = "=0.14.0", default-features = false, features = ["tiny-skia", "x11", "tokio"] }
reqwest = { version = "=0.12.28", default-features = false, features = ["blocking", "rustls-tls"] }
serde = { version = "=1.0.229", features = ["derive"] }
serde_json = "=1.0.154"
