[package]
name = "full-node"
version = "0.1.0"
edition = "2021"
publish = false

[dependencies]
ctrlc = "=3.5.2"
directories = "=5.0.1"
env_logger = "=0.10.2"
event-listener = "=2.5.3"
futures-channel = "=0.3.34"
futures-util = "=0.3.34"
hex = "=0.4.3"
log = "=0.4.35"
rand = "=0.8.8"
serde = { version = "=1.0.229", features = ["derive"] }
serde_json = { version = "=1.0.154", features = ["raw_value"] }
smol = "=1.3.0"
smoldot = "=0.8.0"
terminal_size = "=0.2.6"
