[package]
name = "ckb_bf_zkvm"
version = "0.1.0"
edition = "2021"
publish = false

[dependencies]
env_logger = "0.10"
log = "0.4"
rand = "0.8"

[dev-dependencies]
rand_xorshift = "0.3"
