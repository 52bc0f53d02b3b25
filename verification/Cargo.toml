[package]
name = "tiled_renderer"
version = "0.1.0"
edition = "2021"
publish = false

[dependencies]
bevy = { version = "0.8", default-features = false, features = ["bevy_asset", "bevy_core_pipeline", "bevy_render", "bevy_sprite"] }
bevy_prototype_lyon = "0.6"
crossbeam-channel = "0.5"
layout21 = "3.0.0-pre.2"
