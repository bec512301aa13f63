[package]
name = "http_response"
version = "0.1.0"
edition = "2021"
publish = false

[dependencies]
chunked_transfer = "1"
encoding_rs = "0.8"
serde = "1"
serde_json = "1"
url = "2"
