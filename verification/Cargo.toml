[package]
name = "block_codec"
version = "0.1.0"
edition = "2021"
publish = false

[dependencies]
alloy-rlp = "=0.3.16"
alloy-primitives = "=0.8.26"
alloy-eips = { version = "=0.3.6", default-features = false, features = ["std"] }
alloy-serde = "=0.3.6"
serde_json = "=1.0.154"
