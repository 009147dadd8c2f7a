[package]
name = "cpu_temp"
version = "0.1.0"
edition = "2021"
publish = false

[dependencies]
serde_json = "1"
env_logger = "0.11"
sysinfo = "0.30"
