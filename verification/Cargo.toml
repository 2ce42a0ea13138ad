[package]
name = "transit_sim"
version = "0.1.0"
edition = "2021"
publish = false

[dependencies]
rand = "0.9"
serde = { version = "*", features = ["derive"] }
serde_json = "*"
csv = "*"
chrono = { version = "*", features = ["serde"] }
egui = "*"
eframe = { version = "*", default-features = false }
