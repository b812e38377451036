[package]
name = "configserve"
version = "0.1.0"
edition = "2021"
publish = false

[dependencies]
url = "2"
log = "0.4"
env_logger = "0.11"
