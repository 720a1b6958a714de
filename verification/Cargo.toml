[package]
name = "world_gen"
version = "0.1.0"
edition = "2021"
publish = false

[dependencies]
rand = { version = "0.7", features = ["small_rng"] }
glm = "0.2"
log = "0.4"
env_logger = "*"
chrono = "0.4"
serde_yaml = "*"
gl = "*"
num-traits = "0.2"
