[package]
name = "sinkhole"
version = "0.1.0"
edition = "2021"
publish = false

[dependencies]
curve25519-dalek = "=2.1.3"
elgamal_ristretto = "=0.2.3"
num_cpus = "=1.17.0"
rand_core = { version = "=0.5.1", features = ["getrandom"] }
