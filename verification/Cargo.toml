[package]
name = "bevy_magicleap_one"
version = "0.1.0"
edition = "2021"
publish = false

[dependencies]
anyhow = "1"
ash = "0.37"
bevy_log = "0.11.2"
bevy_utils = "0.11.2"
libc = "0.2"
tracing = "0.1"
tracing-core = "0.1"
tracing-subscriber = "0.3"
