[package]
name = "terminrt"
version = "0.1.0"
edition = "2021"
publish = false

[dependencies]
alacritty_terminal = "0.25"
bytemuck = { version = "1", features = ["derive"] }
dirs = "6"
egui = "0.27"
fontdue = "0.9"
pollster = "0.3"
serde = { version = "1", features = ["derive"] }
serde_json = "1"
uuid = { version = "1", features = ["v4"] }
