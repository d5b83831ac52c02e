[package]
name = "upmd"
version = "0.1.0"
edition = "2021"
publish = false

[dependencies]
crossterm = "=0.29.0"
directories = "=6.0.0"
image = { version = "=0.25.10", default-features = false, features = ["png", "jpeg", "gif"] }
keymap = { version = "=1.0.0-rc.7", features = ["crossterm", "derive"] }
ratatui = "=0.30.2"
ratatui-image = { version = "=11.1.0", default-features = false, features = ["crossterm"] }
serde = { version = "=1.0.229", features = ["derive"] }
syntect = { version = "=5.3.0", default-features = false, features = ["default-fancy"] }
tempfile = "=3.27.0"
toml = "=1.1.8"
tracing = "=0.1.44"
unicode-width = "=0.2.3"
