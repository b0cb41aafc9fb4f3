[package]
name = "tarts"
version = "0.1.0"
edition = "2021"
publish = false

[dependencies]
crossterm = "*"
derive_builder = "*"
directories = "*"
env_logger = "*"
ndarray = "*"
once_cell = "*"
pico-args = "*"
rand = "0.9"
serde = { version = "1", features = ["derive"] }
thiserror = "*"
toml = "*"
