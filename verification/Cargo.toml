[package]
name = "bevy_suis"
version = "0.1.0"
edition = "2021"
publish = false

[dependencies]
bevy = { version = "0.14", default-features = false }
openxr = { version = "0.18", default-features = false }
