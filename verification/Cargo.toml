[package]
name = "iplayer_catalog"
version = "0.1.0"
edition = "2021"
publish = false

[dependencies]
select = "*"
chrono = "*"
serde = { version = "*", features = ["derive"] }
serde_json = "*"
url = "*"
crossbeam = "*"
reqwest = { version = "*", default-features = false, features = ["blocking", "rustls-tls"] }
