[package]
name = "gb_rw_host"
version = "0.2.0"
edition = "2021"
publish = false

[dependencies]
clap = "=2.34.0"
serial = "=0.4.0"
bufstream = "=0.1.4"
urpc = "=0.2.0"
zip = { version = "=0.6.6", default-features = false, features = ["deflate"] }
pbr = "=1.1.1"
log = "=0.4.35"
env_logger = "=0.7.1"
serde = { version = "=1.0.229", features = ["derive"] }
