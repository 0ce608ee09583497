[package]
name = "ref_comp"
version = "0.1.0"
edition = "2021"
publish = false

[dependencies]
bevy = { version = "0.9", default-features = false }
crossbeam-channel = "0.5"
serde = { version = "1", features = ["derive"] }
