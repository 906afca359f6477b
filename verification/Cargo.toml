[package]
name = "openoutcry"
version = "0.1.0"
edition = "2021"
publish = false

[dependencies]
rayon = "=1.12.0"
serde = { version = "=1.0.229", features = ["derive"] }
serde_json = "=1.0.154"
pyo3 = { version = "=0.29.3", features = ["abi3-py38", "extension-module"] }
sharpebench-core = "<0.2.0"
sharpebench-sim = "<0.2.0"
sharpebench-protocol = "<0.2.0"
