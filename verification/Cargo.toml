[package]
name = "roam"
version = "0.1.0"
edition = "2021"
publish = false

[dependencies]
serde = { version = "1", features = ["derive"] }
serde_json = "1"
sysinfo = "*"
walkdir = "2"
zip = "*"
chrono = "0.4"
