[package]
name = "cosmic_camera"
version = "0.1.0"
edition = "2021"
publish = false

[dependencies]
anyhow = "1"
ashpd = { version = "0.11", default-features = false, features = ["tokio"] }
gstreamer = "0.23"
gstreamer-app = "0.23"
gstreamer-video = "0.23"
image = { version = "0.25", default-features = false, features = ["jpeg"] }
tokio = { version = "1", features = ["rt-multi-thread", "sync", "time"] }
