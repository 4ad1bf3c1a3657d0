[package]
name = "apicentric"
version = "0.1.0"
edition = "2021"
publish = false

[dependencies]
regex = "=1.13.1"
url = "=2.5.8"
uuid = "=1.29.0"
rand = "=0.8.8"
serde = { version = "=1.0.229", features = ["derive"] }
serde_json = "=1.0.154"
serde_yaml = "=0.9.34"
quick-xml = "=0.36.2"
openapiv3 = "2"
async-graphql = { version = "7", default-features = false }
async-graphql-parser = "7"
rhai = { version = "1", features = ["serde"] }
chrono = "0.4"
