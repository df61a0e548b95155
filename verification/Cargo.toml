[package]
name = "table_schema"
version = "0.1.0"
edition = "2021"
publish = false

[dependencies]
regex = "1"
serde = "1"

[dev-dependencies]
serde_json = "1"
