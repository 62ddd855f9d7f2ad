[package]
name = "cruise_pid"
version = "0.1.0"
edition = "2021"
publish = false

[dependencies]
serde_json = "=1.0.151"
serde = { version = "=1.0.229", features = ["derive"] }
log = "=0.4.34"
async-trait = "=0.1.92"
up-rust = { version = "=0.9.0", features = ["util"] }
