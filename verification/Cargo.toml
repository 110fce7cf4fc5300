[package]
name = "evdev_proxy"
version = "0.1.0"
edition = "2021"
publish = false

[dependencies]
clap = { version = "*", features = ["cargo"] }
config = { version = "*", default-features = false, features = ["toml"] }
crossbeam = "*"
input-linux = "*"
log = "*"
nix = { version = "*", features = ["poll", "signal"] }
pretty_env_logger = "*"
serde = { version = "*", features = ["derive"] }
serde_derive = "*"
udev = "*"
