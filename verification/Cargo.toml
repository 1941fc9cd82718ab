[package]
name = "summoners_chess"
version = "0.1.0"
edition = "2021"
publish = false

[dependencies]
bevy_utils = "=0.13.2"
rand = "=0.8.8"
ron = "0.8"
serde = { version = "=1.0.229", features = ["derive"] }
