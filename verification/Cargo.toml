[package]
name = "crypto_identity"
version = "0.1.0"
edition = "2021"
publish = false

[dependencies]
libsm = "*"
blake2-rfc = "0.2"
tiny-bip39 = "0.8"
substrate-bip39 = "0.4"
parity-scale-codec = "3"
base58 = "0.1"
hex = "0.4"
serde = { version = "1", features = ["derive"] }
structopt = "0.3"
futures = "0.3"
log = "0.4"
pin-project = "1"
syn = { version = "1", features = ["full", "extra-traits"] }
quote = "1"
proc-macro2 = "1"
