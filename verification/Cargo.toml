[package]
name = "grok_extensions"
version = "0.1.0"
edition = "2021"
publish = false

[dependencies]
serde_json = "1"
serde = { version = "1", features = ["derive"] }
schemars = "1"
async-trait = "0.1"
tokio = { version = "1", default-features = false, features = ["sync"] }
tracing = "0.1"
parking_lot = "0.12"
futures = "0.3"
ctor = "0.2"
dirs = "5"
ureq = { version = "2", default-features = false, features = ["json"] }
