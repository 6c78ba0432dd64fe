[package]
name = "security_camera"
version = "0.1.0"
edition = "2021"
publish = false

[dependencies]
chrono = "0.4"
docopt = "1"
fern = "0.6"
log = "0.4"
serde = { version = "1", features = ["derive"] }
serde_json = "1"
opencv = "*"
