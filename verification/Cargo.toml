[package]
name = "yummy"
version = "0.1.0"
edition = "2021"
publish = false

[dependencies]
url = "2"
protobuf = "3"
async-trait = "0.1"
env_logger = "0.11"
actix-web = "4"
tokio = { version = "1", features = ["rt"] }
pyo3 = "*"
