[package]
name = "passman"
version = "0.1.0"
edition = "2021"
publish = false

[dependencies]
bincode = "1"
bincode_aes = "*"
rust-crypto = "0.2"
rand = "0.8"
serde = { version = "1", features = ["derive"] }
shellexpand = "*"
structopt = "0.3"
