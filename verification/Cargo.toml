[package]
name = "noteblock"
version = "0.1.0"
edition = "2021"
publish = false

[dependencies]
eframe = { version = "0.32", default-features = false, features = ["glow", "x11", "default_fonts"] }
lewton = "0.10"
serde = { version = "1", features = ["derive"] }
serde_json = "1"
