[package]
name = "block_core"
version = "0.1.0"
edition = "2021"
publish = false

[dependencies]
etcommon-bigint = "*"
etcommon-rlp = "*"
sha3 = "0.6"
