[package]
name = "cgroup_bandwidth_limit"
version = "0.1.0"
edition = "2021"
publish = false

[dependencies]
anyhow = "1"
aya = "0.12"
clap = { version = "4", features = ["derive"] }
env_logger = "0.10"
libc = "0.2"
log = "0.4"
nix = { version = "0.27", features = ["fs", "ioctl"] }
rand = "0.7"
termion = "1.5"
