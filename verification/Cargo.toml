[package]
name = "wormhole_desktop_ui"
version = "0.1.0"
edition = "2021"
publish = false

[dependencies]
base64 = "0.22"
serde = { version = "1", features = ["derive"] }
serde_json = "1"
arboard = "3"
image = { version = "0.25", default-features = false, features = ["png"] }
chrono = "0.4"
pathfinder_geometry = "0.5"
pathfinder_color = "0.5"
