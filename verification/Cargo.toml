[package]
name = "portals"
version = "0.1.0"
edition = "2021"
publish = false

[dependencies]
bytemuck = { version = "=1.25.2", features = ["derive"] }
eframe = { version = "=0.32.3", default-features = false, features = ["wgpu", "default_fonts", "persistence", "x11", "wayland"] }
egui-file-dialog = "0.11"
encase = "=0.11.2"
rand = "=0.9.5"
serde = { version = "=1.0.229", features = ["derive"] }
serde_json = "=1.0.154"
