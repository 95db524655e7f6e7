[package]
name = "predator-sense"
version = "0.1.0"
edition = "2021"
publish = false

[dependencies]
dirs = "*"
gtk4 = { version = "*", features = ["v4_10"] }
libadwaita = { version = "*", features = ["v1_4"] }
libc = "0.2"
rusb = "0.9"
serde = { version = "1", features = ["derive"] }
serde_json = "1"
