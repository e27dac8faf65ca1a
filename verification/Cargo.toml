[package]
name = "ro_soku"
version = "0.1.0"
edition = "2021"
publish = false

[dependencies]
anyhow = "*"
chrono = "*"
clap = { version = "*", features = ["derive"] }
console = "*"
dialoguer = "*"
regex = "*"
reqwest = { version = "*", default-features = false, features = ["blocking", "rustls-tls"] }
serde_json = "*"
