[package]
name = "bevy_softbody2d"
version = "0.1.0"
edition = "2021"
publish = false

[dependencies]
bevy = { version = "=0.19.1", default-features = false, features = ["bevy_pbr"] }
