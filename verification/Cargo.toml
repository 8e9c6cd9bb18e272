[package]
name = "ringct"
version = "0.1.0"
edition = "2021"
publish = false

[dependencies]
blstrs = "=0.6.2"
bls_bulletproofs = "=1.1.1"
ff = "=0.12.1"
group = "=0.12.1"
rand_chacha = "=0.3.1"
rand_core = "=0.6.4"
tiny-keccak = { version = "=2.0.2", features = ["sha3"] }
