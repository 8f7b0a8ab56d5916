[package]
name = "schnorr"
version = "0.1.0"
edition = "2021"
publish = false

[dependencies]
openssl = "*"
sha3 = "*"
