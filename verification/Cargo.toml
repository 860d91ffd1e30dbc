[package]
name = "schema_contract"
version = "0.1.0"
edition = "2021"
publish = false

[dependencies]
async-trait = "0.1"
http = "0.2"
serde_json = "1.0"
typed-headers = "0.2"
