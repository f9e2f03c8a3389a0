[package]
name = "dumpspace_api"
version = "0.1.0"
edition = "2021"
publish = false

[dependencies]
flate2 = "1"
reqwest = { version = "0.12", features = ["blocking"] }
serde_json = "1"
