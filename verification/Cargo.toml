[package]
name = "grass_latte"
version = "0.1.0"
edition = "2021"
publish = false

[dependencies]
crossbeam = "*"
once_cell = "*"
serde = { version = "1", features = ["derive"] }
serde_json = "1"
tiny_http = "*"
tungstenite = "*"
