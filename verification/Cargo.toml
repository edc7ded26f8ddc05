[package]
name = "wayshot"
version = "0.1.0"
edition = "2021"
publish = false

[dependencies]
image = { version = "0.24", default-features = false, features = ["jpeg", "png", "pnm"] }
memmap2 = "0.5"
nix = "0.26"
log = "0.4"
env_logger = "0.9"
clap = "3"
wayland-client = "0.30"
wayland-protocols = { version = "0.30", features = ["client", "unstable"] }
wayland-protocols-wlr = { version = "0.1", features = ["client"] }
