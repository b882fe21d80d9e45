[package]
name = "element_metadata"
version = "0.1.0"
edition = "2021"
publish = false

[dependencies]
anyhow = "1"
hex = "0.4"
rusty-leveldb = "*"
serde = { version = "1", features = ["derive"] }
serde_json = "1"
