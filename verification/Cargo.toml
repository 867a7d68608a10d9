[package]
name = "platter"
version = "0.1.0"
edition = "2021"
publish = false

[dependencies]
anyhow = "*"
clap = { version = "*", features = ["derive"] }
env_logger = "*"
gltf = "*"
local-ip-address = "*"
log = "*"
mdns-sd = "*"
nalgebra = "*"
nalgebra-glm = "*"
notify = "*"
tokio = { version = "*", features = ["full"] }
url = "*"
uuid = { version = "*", features = ["v4"] }
