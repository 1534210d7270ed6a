[package]
name = "flight_sim"
version = "0.1.0"
edition = "2021"
publish = false

[dependencies]
bevy = { version = "0.18", default-features = false, features = ["bevy_pbr", "bevy_gltf", "bevy_scene", "bevy_sprite", "bevy_sprite_render", "bevy_text", "bevy_ui", "bevy_ui_render", "bevy_gizmos", "bevy_gizmos_render", "png", "default_font"] }
noise = "0.9"
