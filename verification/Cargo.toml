[package]
name = "cb_crypto"
version = "0.1.0"
edition = "2021"
publish = false

[dependencies]
alloy-rpc-types-beacon = "*"
blst = "0.3"
rand = "0.8"
tree_hash = "*"
