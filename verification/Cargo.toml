[package]
name = "validated_struct"
version = "0.1.0"
edition = "2021"
publish = false

[dependencies]
serde = "1"
serde_json = "1"
json5 = "0.4"
syn = { version = "1", features = ["full"] }
quote = "1"
proc-macro2 = "1"
unzip-n = "0.1"
