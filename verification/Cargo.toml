[package]
name = "erenflow"
version = "0.1.0"
edition = "2021"
publish = false

[dependencies]
serde = "=1.0.229"
serde_json = "=1.0.154"
thiserror = "=1.0.69"
regex = "1"
