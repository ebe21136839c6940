[package]
name = "room_egress"
version = "0.1.0"
edition = "2021"
publish = false

[dependencies]
anyhow = "1"
ffmpeg-rs-raw = "*"
futures-util = "0.3"
libc = "0.2"
livekit = "*"
log = "0.4"
pretty_env_logger = "0.5"
reqwest = { version = "0.12", features = ["json"] }
serde = { version = "1", features = ["derive"] }
tokio = { version = "1", features = ["full"] }
