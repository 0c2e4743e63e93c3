[package]
name = "decaf377"
version = "0.1.0"
edition = "2021"
publish = false

[dependencies]
subtle = "=2.6.1"
zeroize = "=1.9.1"
hex = "=0.4.3"
elliptic-curve = { version = "=0.13.8", features = ["hash2curve", "bits"] }
blake2 = "=0.10.6"
rand_core = "=0.6.4"
ark-ec = "0.4"
ark-ff = "=0.4.2"
ark-serialize = "=0.4.2"
ark-std = "=0.4.0"
serdect = "=0.2.0"
