[package]
name = "rqcore"
version = "0.1.0"
edition = "2021"
publish = false

[dependencies]
chrono = "*"
chrono-tz = "*"
serde = { version = "*", features = ["derive"] }
serde_json = "*"
reqwest = { version = "*", default-features = false, features = ["rustls-tls"] }
tokio = { version = "*", features = ["full"] }
lettre = { version = "*", default-features = false, features = ["smtp-transport", "builder", "rustls-tls"] }
ibapi = "*"
