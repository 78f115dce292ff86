[package]
name = "fluyer"
version = "0.1.0"
edition = "2021"
publish = false

[dependencies]
rand = "=0.9.5"
regex = "=1.13.1"
serde = { version = "=1.0.229", features = ["derive"] }
serde_json = "=1.0.154"
tokio = { version = "=1.54.1", default-features = false, features = ["sync", "rt", "process"] }
base64 = "=0.22.1"
once_cell = "=1.21.4"
lazy_static = "=1.5.1"
symphonia = "0.5"
sysinfo = "*"
libloading = "0.8"
image = { version = "0.25", default-features = false, features = ["png", "jpeg"] }
libblur = "*"
