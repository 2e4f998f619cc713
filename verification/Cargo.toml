[package]
name = "zkp_utils"
version = "0.1.0"
edition = "2021"
publish = false

[dependencies]
curve25519-dalek = "2"
sha3 = "0.8"
rand = "0.7"
rand_core = { version = "0.5", features = ["getrandom"] }
failure = { version = "0.1", default-features = false, features = ["std", "derive"] }
lazy_static = "1.4"
