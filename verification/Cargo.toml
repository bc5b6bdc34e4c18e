[package]
name = "brc20_unwrap"
version = "0.1.0"
edition = "2021"
publish = false

[dependencies]
alloy-sol-types = "0.8"
async-trait = "0.1"
bitcoin = "0.32"
hex = "0.4"
log = "0.4"
serde_json = "1"
