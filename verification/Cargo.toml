[package]
name = "bls"
version = "0.1.0"
edition = "2021"
publish = false

[dependencies]
curv-kzen = "=0.9.0"
round-based = "=0.1.7"
sha2 = "=0.9.9"
pairing-plus = "=0.19.0"
ff-zeroize = "=0.6.3"
