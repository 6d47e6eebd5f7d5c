[package]
name = "waifu_http"
version = "0.1.0"
edition = "2021"

[dependencies]
async-std = "1"
chrono = "0.4"
env_logger = "*"
futures = "0.3"
log = "0.4"
