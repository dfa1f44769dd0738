[package]
name = "openinfer-glm52"
version = "0.1.0"
edition = "2021"
publish = false

[dependencies]
anyhow = "1"
bytesize = "*"
crossbeam-channel = "0.5"
half = "2"
hex = "0.4"
log = "0.4"
safetensors = "*"
serde_json = "1"
sha2 = "0.10"
