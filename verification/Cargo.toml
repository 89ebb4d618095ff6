[package]
name = "slopos_shell"
version = "0.1.0"
edition = "2021"
publish = false

[dependencies]
serde = { version = "=1.0.229", features = ["derive"] }
serde_json = "1"
thiserror = "=1.0.69"
toml = "=0.8.23"
walkdir = "=2.5.0"
uuid = { version = "1", features = ["v4"] }
zbus = "=4.4.0"
x11rb = "=0.13.2"
wayland-client = "=0.31.15"
wayland-protocols = { version = "=0.32.13", features = ["client", "staging"] }
