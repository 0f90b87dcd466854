[package]
name = "love_display"
version = "0.1.0"
edition = "2021"
publish = false

[dependencies]
serde_json = "1"
anyhow = "1"
log = "0.4"
embedded-graphics = "0.8"
ssd1306 = "0.8"
embedded-svc = "*"
esp-idf-svc = "*"
