[package]
name = "tomatoes"
version = "0.1.0"
edition = "2021"
publish = false

[dependencies]
crossterm = "0.27"
ratatui = "0.26"
rodio = "0.17"
serde = { version = "1", features = ["derive"] }
