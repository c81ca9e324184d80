[package]
name = "vkawaii"
version = "0.1.0"
edition = "2021"
publish = false

[dependencies]
naga = { version = "*", features = ["spv-in", "wgsl-out"] }
zip = { version = "*", default-features = false, features = ["deflate"] }
rosc = "*"
uuid = { version = "1", features = ["v4", "serde"] }
serde = { version = "1", features = ["derive"] }
serde_json = "1"
anyhow = "1"
nalgebra = "*"
lazy_static = "1"
gltf = { version = "*", features = ["extensions"] }
image = { version = "*", default-features = false, features = ["png", "jpeg"] }
tokio = { version = "1", features = ["rt-multi-thread", "net", "macros", "time"] }
tokio-tungstenite = "*"
futures-util = "*"
cpal = "*"
global-hotkey = "*"
