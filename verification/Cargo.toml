[package]
name = "rts_units"
version = "0.1.0"
edition = "2021"
publish = false

[dependencies]
bevy = { version = "0.9", default-features = false, features = ["animation", "bevy_asset", "bevy_scene", "bevy_winit", "render", "png", "x11"] }
bevy_mod_raycast = "0.7"
bevy_rapier3d = "0.19"
bevy-inspector-egui = "0.14"
bevy-scene-hook = "~5.1"
rand = "0.8"
