[package]
name = "ralk"
version = "0.1.0"
edition = "2021"
publish = false

[dependencies]
anyhow = "1"
ash = "0.38"
bytemuck = { version = "1", features = ["derive"] }
env_logger = "*"
glam = "0.29"
gltf = "*"
hecs = "0.10"
log = "0.4"
mlua = { version = "0.10", features = ["lua54", "vendored"] }
notify = "*"
rodio = "0.19"
serde = { version = "1", features = ["derive"] }
serde_json = "1"
shaderc = "*"
