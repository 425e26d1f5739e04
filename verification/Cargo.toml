[package]
name = "inkstroke"
version = "0.1.0"
edition = "2021"
publish = false

[dependencies]
bevy = { version = "=0.16.1", default-features = false, features = ["std", "async_executor", "bevy_asset", "bevy_color", "bevy_core_pipeline", "bevy_gizmos", "bevy_log", "bevy_render", "bevy_sprite", "bevy_state", "bevy_text", "bevy_ui", "bevy_window", "default_font", "multi_threaded"] }
bevy_dev_tools = "=0.16.1"
bevy_pkv = "=0.13.0"
bevy_render = "=0.16.1"
glam = "=0.29.3"
serde = { version = "1", features = ["derive"] }

[dev-dependencies]
bevy_math = "=0.16.1"
