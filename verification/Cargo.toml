[package]
name = "newmq"
version = "0.1.0"
edition = "2021"
publish = false

[dependencies]
env_logger = "=0.7.1"
log = "=0.4.34"
serde = { version = "=1.0.229", features = ["derive"] }
serde_json = "=1.0.154"
ws = "=0.9.2"

[dev-dependencies]
mio = "=0.6.23"
