[package]
name = "pi_sentinel"
version = "0.1.0"
edition = "2021"
publish = false

[dependencies]
hex = "0.4"
bs58 = "0.5"
sha2 = "0.10"
ripemd = "0.1"
rand_core = { version = "0.6", features = ["getrandom"] }
serde = { version = "1", features = ["derive"] }
serde_json = "1"
