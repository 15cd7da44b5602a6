[package]
name = "saldowsd"
version = "0.1.0"
edition = "2021"
publish = false

[dependencies]
byteorder = "1"
hashbrown = "*"
serde = { version = "1", features = ["derive"] }
serde_json = "1"
clap = { version = "4", features = ["derive"] }
log = "0.4"
env_logger = "*"
eyre = "*"
miette = "*"
ndarray = "*"
thiserror = "*"
crossbeam-channel = "*"
