[package]
name = "sprite_prefab"
version = "0.1.0"
edition = "2021"
publish = false

[dependencies]
amethyst_assets = "=0.15.3"
amethyst_core = "=0.15.3"
amethyst_error = "=0.15.3"
derivative = "=2.2.0"
failure = "=0.1.8"
fnv = "=1.0.7"
glsl-layout = "=0.5.0"
log = "=0.4.34"
num-traits = "=0.2.19"
rendy = { version = "=0.5.1", default-features = false, features = ["factory", "mesh", "texture"] }
serde = { version = "=1.0.229", features = ["derive"] }
thread_profiler = "=0.3.0"
