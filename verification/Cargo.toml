[package]
name = "br0wse"
version = "0.1.0"
edition = "2021"
publish = false

[dependencies]
smol = "=2.0.2"
zeroconf = "=0.14.2"
serde = { version = "1", features = ["derive"] }
env_logger = "0.11"
log = "0.4"
