[package]
name = "app_library"
version = "0.1.0"
edition = "2021"
publish = false

[dependencies]
url = "=2.5.8"
shlex = "=1.3.0"
serde = { version = "=1.0.229", features = ["derive"] }
ron = "=0.8.1"
clap = { version = "=4.6.7", features = ["derive"] }
walkdir = "=2.5.0"
xdg = "=2.5.2"
freedesktop-desktop-entry = { version = "=0.8.3", default-features = false }
