[package]
name = "okv_eval"
version = "0.1.0"
edition = "2021"
publish = false

[dependencies]
sha2 = "0.10"
serde = { version = "1", features = ["derive"] }
serde_json = "1"
ring = "0.17"
chrono = { version = "0.4", default-features = false, features = ["clock", "std"] }
jsonschema = { version = "0.18", default-features = false }
toml = "0.8"
