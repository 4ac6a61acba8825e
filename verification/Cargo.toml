[package]
name = "slider_core"
version = "0.1.0"
edition = "2021"
publish = false

[dependencies]
accesskit = "*"
bytemuck = "1"
ecolor = "*"
emath = "*"
serde = { version = "1", features = ["derive"] }
