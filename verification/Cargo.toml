[package]
name = "voxel_world"
version = "0.1.0"
edition = "2021"
publish = false

[dependencies]
num = "=0.4.3"
json = "=0.12.4"
bytemuck = { version = "1", features = ["derive"] }
egui = { version = "0.23", default-features = false }
egui_wgpu_backend = "0.26"
env_logger = { version = "0.10", default-features = false }
image = { version = "0.24", default-features = false, features = ["png"] }
lazy_static = "1"
nalgebra-glm = { version = "0.18", default-features = false, features = ["std"] }
noise = { version = "0.8", default-features = false }
pollster = "0.3"
regex = { version = "1", default-features = false, features = ["std", "unicode-perl"] }
shipyard = { version = "0.6", default-features = false, features = ["std"] }
static_assertions = "1"
wgpu = { version = "0.17", default-features = false, features = ["wgsl"] }
