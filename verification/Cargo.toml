[package]
name = "groth16_aggregation"
version = "0.1.0"
edition = "2021"
publish = false

[dependencies]
blstrs = { version = "=0.2.2", features = ["serde"] }
fff = "=0.2.3"
groupy = "=0.3.1"
sha2 = "=0.10.9"
digest = "=0.10.7"
bincode = "=1.3.3"
serde = { version = "=1.0.229", features = ["derive"] }
rayon = "=1.12.0"
crossbeam-channel = "=0.5.17"
log = "=0.4.34"
rand_core = "=0.5.1"

[dev-dependencies]
rand = "=0.7.3"
rand_xorshift = "=0.2.0"
