[package]
name = "video_triage"
version = "0.1.0"
edition = "2021"
publish = false

[dependencies]
mp4 = "*"
matroska = "*"
clap = { version = "*", features = ["derive"] }
anyhow = "*"
log = "*"
humantime = "*"
pretty_env_logger = "*"
