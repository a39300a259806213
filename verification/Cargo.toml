[package]
name = "datasynth_group"
version = "0.1.0"
edition = "2021"
publish = false

[dependencies]
rust_decimal = "*"
chrono = "*"
blake3 = "*"
hex = "*"
rand = "*"
rand_chacha = "*"
serde = { version = "*", features = ["derive"] }
serde_json = "*"
serde_yaml = "*"
thiserror = "*"
