[package]
name = "rustx"
version = "0.1.0"
edition = "2021"
publish = false

[dependencies]
config = "0.13"
crossbeam-channel = "0.5"
env_logger = "0.10"
log = "0.4"
