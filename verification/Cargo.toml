[package]
name = "llvm_viz"
version = "0.1.0"
edition = "2021"
publish = false

[dependencies]
bevy = { version = "=0.15.3", default-features = false, features = ["bevy_asset", "bevy_color", "bevy_core_pipeline", "bevy_dev_tools", "bevy_gizmos", "bevy_render", "bevy_sprite", "bevy_text", "bevy_window"] }
bevy_pancam = "=0.16.0"
llvm-plugin = { version = "=0.6.0", features = ["llvm14-0"] }
petgraph = { version = "=0.8.3", features = ["serde-1"] }
regex = "=1.13.1"
serde = { version = "=1.0.229", features = ["derive"] }
serde_json = "=1.0.154"
thiserror = "=2.0.21"
