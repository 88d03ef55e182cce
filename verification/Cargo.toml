[package]
name = "vinyl_catalog"
version = "0.1.0"
edition = "2021"
publish = false

[dependencies]
chrono = "0.4"
serde = { version = "1", features = ["derive"] }
serde_json = "1"
crossterm = "0.25"
tui = "0.19"
reqwest = { version = "0.11", default-features = false, features = ["blocking"] }
