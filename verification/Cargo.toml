[package]
name = "vehicle_motion"
version = "0.1.0"
edition = "2021"
publish = false

[dependencies]
pid = "=3.0.0"
bevy = { version = "=0.8.1", default-features = false, features = ["render", "bevy_asset", "bevy_winit", "x11"] }
bevy_physimple = "=0.5.0"
