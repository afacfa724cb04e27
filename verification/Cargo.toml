[package]
name = "shufflekeys"
version = "0.1.0"
edition = "2021"
publish = false

[dependencies]
anyhow = "1"
clap = { version = "4", features = ["derive"] }
core-foundation = "0.9"
core-graphics = "0.23"
dirs = "5"
env_logger = "0.11"
evdev = "0.12"
foreign-types = "0.5"
libc = "0.2"
log = "0.4"
nix = { version = "0.29", features = ["process", "fs", "signal"] }
rand = "0.8"
rand_distr = "0.4"
serde = { version = "1", features = ["derive"] }
toml = "0.8"
