[package]
name = "thucra"
version = "0.1.0"
edition = "2021"
publish = false

[dependencies]
base64 = "0.22"
serde = { version = "1", features = ["derive"] }
serde_json = "1"
axum = { version = "0.8", features = ["ws"] }
axum-server = { version = "*", features = ["tls-rustls"] }
tokio = { version = "1", features = ["full"] }
rustls = { version = "0.23", features = ["ring"] }
tracing = "0.1"
tracing-appender = "0.2"
tracing-subscriber = "0.3"
gtk4 = "*"
libadwaita = "*"
relm4 = { version = "*", features = ["libadwaita"] }
