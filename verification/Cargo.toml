[package]
name = "fair_draw"
version = "0.1.0"
edition = "2021"
publish = false

[dependencies]
rand = "=0.8.8"
schnorrkel = "=0.11.5"
sp-crypto-hashing = "=0.1.0"
