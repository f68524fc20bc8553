[package]
name = "schengen-client"
version = "0.1.0"
edition = "2021"
publish = false

[dependencies]
anyhow = "=1.0.104"
ashpd = { version = "=0.13.13", features = ["clipboard", "remote_desktop", "screencast"] }
chrono = "=0.4.45"
clap = { version = "=4.6.7", features = ["derive"] }
env_logger = "=0.11.11"
futures-util = "=0.3.34"
hostname = "=0.4.2"
kbvm = "=0.2.0"
libc = "=0.2.191"
listenfd = "=1.0.2"
log = "=0.4.35"
reis = "=0.7.1"
schengen = "=0.2.0"
tokio = { version = "=1.54.1", features = ["full"] }
