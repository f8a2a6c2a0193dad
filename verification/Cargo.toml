[package]
name = "cubehash"
version = "0.1.0"
edition = "2021"
publish = false

[dependencies]
cfg-if = "=1.0.5"
cpufeatures = "=0.3.1"
ctutils = "=0.4.5"
digest = { version = "=0.11.3", features = ["mac", "zeroize"] }
static_assertions = "=1.1.0"
