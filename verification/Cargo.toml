[package]
name = "spinner_wm"
version = "0.1.0"
edition = "2021"
publish = false

[dependencies]
anyhow = "*"
calloop = "*"
serde = { version = "*", features = ["derive"] }
toml = "*"
tracing = "*"
tracing-subscriber = "*"
xdg = "*"
