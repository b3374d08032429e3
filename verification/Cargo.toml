[package]
name = "candidate_primitives"
version = "0.1.0"
edition = "2021"
publish = false

[dependencies]
bitvec = "=1.1.1"
parity-scale-codec = { version = "=3.7.5", features = ["bit-vec"] }
proc-macro2 = "=1.0.107"
quote = "=1.0.47"
serde = { version = "=1.0.229", features = ["derive"] }
sp-arithmetic = "=29.0.0"
sp-core = "=43.0.0"
syn = "=2.0.119"

[dev-dependencies]
sp-crypto-hashing = "=0.1.0"
