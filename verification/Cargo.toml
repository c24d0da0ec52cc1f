[package]
name = "giskard"
version = "0.1.0"
edition = "2021"
publish = false

[dependencies]
async-trait = "=0.1.92"
chrono = "=0.4.45"
codex-codes = "=0.153.5"
jsonschema = { version = "=0.33.0", default-features = false }
libc = "=0.2.191"
referencing = "=0.33.0"
serde = { version = "=1.0.229", features = ["derive"] }
serde_json = "=1.0.154"
tokio = { version = "=1.54.1", features = ["full"] }
tracing = "=0.1.44"
