[package]
name = "camera_display"
version = "0.1.0"
edition = "2021"
publish = false

[dependencies]
embedded-graphics = "=0.8.2"
jpeg-decoder = { version = "=0.3.2", default-features = false, features = ["platform_independent"] }
linuxfb = "=0.3.1"
rand = "=0.10.3"
v4l = "=0.14.0"
