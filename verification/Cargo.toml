[package]
name = "purl"
version = "0.1.0"
edition = "2021"
publish = false

[dependencies]
url = "2"
reqwest = { version = "0.12", default-features = false, features = ["blocking", "socks", "rustls-tls"] }
clap = { version = "4", features = ["derive"] }
anyhow = "1"
