[package]
name = "json2excel"
version = "0.1.0"
edition = "2021"
publish = false

[dependencies]
serde_json = { version = "=1.0.151", features = ["preserve_order"] }
chardetng = "=1.0.0"
encoding_rs = "=0.8.42"
rust_xlsxwriter = "=0.99.1"
