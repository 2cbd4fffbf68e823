[package]
name = "computer-use-linux"
version = "0.1.0"
edition = "2021"
publish = false

[dependencies]
anyhow = "1"
base64 = "0.22"
evdev = "0.13"
futures-util = "0.3"
schemars = "1"
serde = { version = "1", features = ["derive"] }
tokio = { version = "1", features = ["time"] }
zbus = "5"
