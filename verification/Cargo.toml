[package]
name = "midi_rs"
version = "0.1.0"
edition = "2021"
publish = false

[dependencies]
midly = "0.5"
serde = { version = "1", features = ["derive"] }
serde_json = "1"
log = "0.4"
env_logger = "0.11"
