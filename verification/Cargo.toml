[package]
name = "gpgpu"
version = "0.1.0"
edition = "2021"
publish = false

[dependencies]
env_logger = "0.8"
futures = "0.3"
lazy_static = "1.4"
wgpu = "0.6"
