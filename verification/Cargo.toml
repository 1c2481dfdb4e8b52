[package]
name = "evolution_origin"
version = "0.1.0"
edition = "2021"
publish = false

[dependencies]
bevy = { version = "=0.15.3", default-features = false, features = ["bevy_asset", "bevy_color", "bevy_core_pipeline", "bevy_gizmos", "bevy_render", "bevy_sprite", "bevy_state", "bevy_text", "bevy_ui", "bevy_window"] }
rand = "=0.8.8"
postgres = "=0.19.14"
r2d2 = "=0.8.10"
r2d2_postgres = "=0.18.2"
