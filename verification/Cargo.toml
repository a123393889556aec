[package]
name = "iyes_bevy_extras"
version = "0.1.0"
edition = "2021"
publish = false

[dependencies]
bevy = { version = "=0.14.2", default-features = false, features = ["bevy_state"] }
iyes_progress = { version = "=0.12.0", default-features = false }

[dev-dependencies]
async-channel = "=2.5.0"
async-executor = "=1.14.0"
