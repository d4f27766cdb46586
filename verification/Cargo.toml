[package]
name = "layout_render"
version = "0.1.0"
edition = "2021"
publish = false

[dependencies]
image = "0.24"
fontdue = "*"
taffy = "0.3"
clap = { version = "4", features = ["derive"] }
serde = { version = "1", features = ["derive"] }
serde_json = "1"
serde_yaml = "0.9"
