[package]
name = "live-server"
version = "0.1.0"
edition = "2021"
publish = false

[dependencies]
ignore = "0.4"
mime_guess = "2"
path-absolutize = "3"
axum = { version = "0.7", features = ["ws"] }
tokio = { version = "1", features = ["full"] }
futures = "0.3"
notify = "*"
notify-debouncer-full = "*"
local-ip-address = "*"
clap = { version = "4", features = ["derive"] }
env_logger = "*"
log = "0.4"
open = "*"
