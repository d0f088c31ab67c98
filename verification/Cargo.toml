[package]
name = "joyful_create"
version = "0.0.5"
edition = "2021"
publish = false

[dependencies]
bincode = "1.3"
bytemuck = { version = "1", features = ["derive"] }
eframe = { version = "0.29", default-features = false, features = ["default_fonts", "wgpu", "x11"] }
egui = "0.29"
egui-wgpu = "0.29"
image = { version = "0.25", default-features = false, features = ["png"] }
tokio = { version = "1", features = ["rt-multi-thread"] }
wgpu = "22"
