[package]
name = "ssr-core"
version = "0.1.0"
edition = "2021"
publish = false

[dependencies]
chrono = "=0.4.45"
serde = { version = "=1.0.229", features = ["derive"] }
serde_json = "=1.0.154"
zip = { version = "=9.2.2", default-features = false, features = ["deflate"] }
image = { version = "=0.25.10", default-features = false, features = ["png", "webp"] }
webp = "=0.3.1"
device_query = "=4.0.1"
evdev = "=0.13.2"
ashpd = { version = "=0.13.13", default-features = false, features = ["screencast", "async-io"] }
pollster = "=1.0.1"
eframe = { version = "=0.37.0", default-features = false, features = ["glow", "x11", "default_fonts"] }
rfd = { version = "*", default-features = false, features = ["xdg-portal"] }
