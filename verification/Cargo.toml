[package]
name = "go2-runner"
version = "0.1.0"
edition = "2021"
publish = false

[dependencies]
crossterm = "0.29"
env_logger = "0.11"
log = "0.4"
nalgebra = "0.33"
