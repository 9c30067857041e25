[package]
name = "orchestrator"
version = "0.1.0"
edition = "2021"
publish = false

[dependencies]
alloy = { version = "=2.5.0", default-features = false, features = ["sol-types"] }
alloy-primitives = "=1.7.3"
commonware-cryptography = "=2026.10.0"
ark-bn254 = "=0.6.0"
ark-serialize = "=0.6.0"
anyhow = "=1.0.104"
serde = { version = "1", features = ["derive"] }
serde_json = "=1.0.154"
clap = "=4.6.7"
tracing = "=0.1.44"

[dev-dependencies]
ark-ec = "=0.6.0"
