[package]
name = "rustarray30"
version = "0.1.0"
edition = "2021"
publish = false

[dependencies]
arboard = { version = "3", default-features = false }
crossterm = "0.28"
dirs = "5"
eframe = { version = "0.29", default-features = false, features = ["default_fonts", "glow"] }
serde = { version = "1", features = ["derive"] }
