[package]
name = "led_panel"
version = "0.1.0"
edition = "2021"
publish = false

[dependencies]
anyhow = "=1.0.104"
bdf = "=0.4.0"
chrono = "=0.4.45"
dotenv = "=0.15.0"
minifb = "=0.29.0"
reqwest = { version = "=0.13.5", features = ["blocking"] }
serde = { version = "=1.0.229", features = ["derive"] }
serde_json = "=1.0.154"
