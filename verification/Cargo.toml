[package]
name = "emvpt"
version = "0.1.0"
edition = "2021"
publish = false

[dependencies]
openssl = "0.10"
rand = "0.8"
rand_chacha = "0.3"
chrono = "0.4"
hex = "0.4"
serde = { version = "1", features = ["derive"] }
serde_yaml = "0.9"
pcsc = "2"
