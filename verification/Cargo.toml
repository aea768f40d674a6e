[package]
name = "airfield_waypoints"
version = "0.1.0"
edition = "2021"
publish = false

[dependencies]
csv = "*"
roxmltree = "*"
serde = { version = "1", features = ["derive"] }
