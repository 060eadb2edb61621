[package]
name = "dimport"
version = "0.1.0"
edition = "2021"
publish = false

[dependencies]
dotenvy = "0.15"
poise = "0.6"
reqwest = { version = "0.11", default-features = false, features = ["rustls-tls"] }
serde = { version = "1", features = ["derive"] }
serde_json = "1"
tempfile = "3"
tokio = { version = "1", features = ["macros", "rt-multi-thread", "time"] }
walkdir = "2"
zip = { version = "0.6", default-features = false, features = ["deflate"] }
