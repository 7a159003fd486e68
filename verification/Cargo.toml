[package]
name = "bitwhip"
version = "0.1.0"
edition = "2021"
publish = false

[dependencies]
str0m = "*"
local-ip-address = "*"
tokio = { version = "*", features = ["full"] }
reqwest = { version = "*", default-features = false, features = ["rustls-tls"] }
axum = "*"
clap = { version = "*", features = ["derive"] }
