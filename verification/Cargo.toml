[package]
name = "runner"
version = "0.1.0"
edition = "2021"
publish = false

[dependencies]
serde = { version = "1", features = ["derive"] }
serde_json = "1"
toml = "*"
async-channel = "2"
gtk4 = { version = "*", features = ["v4_12"] }
gtk4-layer-shell = "*"
wayland-client = "0.31"
wayland-protocols = { version = "0.32", features = ["client", "staging"] }
