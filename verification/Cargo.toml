[package]
name = "kora"
version = "0.1.0"
edition = "2021"
publish = false

[dependencies]
hex = "=0.4.3"
alloy-primitives = "=1.7.3"
alloy-consensus = { version = "=1.8.3", features = ["k256"] }
alloy-eips = "=1.8.3"
alloy-rlp = "=0.3.17"
k256 = "=0.13.4"
sha3 = "=0.10.9"
commonware-cryptography = "=2026.10.0"
commonware-codec = "=2026.10.0"
commonware-utils = "=2026.10.0"
serde = { version = "=1.0.229", features = ["derive"] }
serde_json = "=1.0.154"
thiserror = "=2.0.21"
clap = { version = "4", features = ["derive"] }
