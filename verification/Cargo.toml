[package]
name = "velo_shell"
version = "0.1.0"
edition = "2021"
publish = false

[dependencies]
async-channel = "*"
glib = "*"
gtk4 = { version = "*", features = ["v4_12"] }
gtk4-layer-shell = "*"
serde = { version = "*", features = ["derive"] }
serde_json = "*"
