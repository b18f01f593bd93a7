[package]
name = "thrift_scope_filter"
version = "0.1.0"
edition = "2021"
publish = false

[dependencies]
base64 = "0.22"
jwt-simple = { version = "0.12", default-features = false, features = ["pure-rust"] }
log = "0.4"
proxy-wasm = "0.2"
regex = "1"
serde = { version = "1", features = ["derive"] }
serde_json = "1"
