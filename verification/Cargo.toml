[package]
name = "tracksync"
version = "0.1.0"
edition = "2021"
publish = false

[dependencies]
regex = "1"
rspotify = { version = "*", default-features = false, features = ["client-reqwest", "reqwest-rustls-tls"] }
serenity = { version = "*", default-features = false, features = ["client", "gateway", "model", "http", "rustls_backend"] }
tokio = { version = "1", features = ["macros", "rt-multi-thread", "sync"] }
