[package]
name = "sshfs"
version = "0.1.0"
edition = "2021"
publish = false

[dependencies]
anyhow = "1"
clap = { version = "4", features = ["derive"] }
daemonize = "0.5"
dialoguer = "0.11"
dns-lookup = "2"
env_logger = "0.11"
fuser = { version = "0.15", default-features = false }
home = "0.5"
libc = "0.2"
log = "0.4"
ssh2 = "0.9"
ssh2-config = "*"
thiserror = "1"
users = "0.11"
