[package]
name = "latbench"
version = "0.1.0"
edition = "2021"
publish = false

[dependencies]
zenoh = { version = "*", default-features = false }
async-std = { version = "*", features = ["attributes"] }
futures = "*"
clap = "*"
env_logger = "*"
log = "*"
time = { version = "*", features = ["formatting"] }

[dev-dependencies]
protobuf = "*"
