[package]
name = "eink"
version = "0.1.0"
edition = "2021"
publish = false

[dependencies]
chrono = "0.4"
chrono-tz = "0.10"
epd-waveshare = "*"
embedded-graphics = "0.8"
u8g2-fonts = "*"
image = { version = "0.25", default-features = false, features = ["png"] }
ureq = { version = "3", features = ["json"] }
serde = { version = "1", features = ["derive"] }
serde_json = "1"
toml = "*"
anyhow = "1"
rppal = { version = "*", features = ["hal"] }
