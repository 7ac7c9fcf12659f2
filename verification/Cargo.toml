[package]
name = "checkssl"
version = "0.1.0"
edition = "2021"
publish = false

[dependencies]
x509-parser = "=0.18.1"
chrono = { version = "=0.4.45", features = ["serde"] }
rustls = { version = "=0.21.12", features = ["dangerous_configuration"] }
webpki-roots = "=0.25.4"
serde = { version = "=1.0.229", features = ["derive"] }
