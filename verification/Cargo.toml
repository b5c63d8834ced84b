[package]
name = "audiolink"
version = "0.1.0"
edition = "2021"
publish = false

[dependencies]
bevy = { version = "0.17", default-features = false, features = ["bevy_asset", "bevy_core_pipeline", "bevy_log", "bevy_pbr", "bevy_render", "bevy_window", "std"] }
bevy_svg = "0.17.1"
colored_text = "=0.3.0"
pipewire = "0.8.0"
