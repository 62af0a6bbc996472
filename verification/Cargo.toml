[package]
name = "musig"
version = "0.1.0"
edition = "2021"
publish = false

[dependencies]
curve25519-dalek = { version = "4.1", features = ["rand_core"] }
merlin = "3.0"
rand = "0.8"
