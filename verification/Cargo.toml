[package]
name = "nftdao"
version = "0.1.0"
edition = "2021"
publish = false

[dependencies]
substrate-fixed = "=0.6.0"
sp-crypto-hashing = "=0.1.0"
parity-scale-codec = "=3.7.5"
