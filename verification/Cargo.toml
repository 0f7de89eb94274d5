[package]
name = "arx"
version = "0.1.0"
edition = "2021"
publish = false

[dependencies]
anyhow = "1"
clap = { version = "4", features = ["derive"] }
flate2 = "1"
indicatif = "0.17"
tar = "0.4"
walkdir = "2"
zip = { version = "2", default-features = false, features = ["deflate"] }
