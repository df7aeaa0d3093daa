[package]
name = "wallpaper"
version = "0.1.0"
edition = "2021"
publish = false

[dependencies]
bincode = "1"
clap = { version = "4", features = ["derive"] }
dashmap = "6"
env_logger = "0.11"
image = { version = "0.25", default-features = false, features = ["jpeg", "png"] }
log = "0.4"
memfd = "0.6"
memmap2 = "0.9"
once_cell = "1"
parking_lot = "0.12"
rayon = "1"
serde = { version = "1", features = ["derive"] }
thiserror = "1"
tokio = { version = "1", features = ["rt-multi-thread", "macros", "net", "io-util", "time", "fs"] }
turbojpeg = "1"
wayland-client = "0.31"
wayland-protocols = { version = "0.32", features = ["client"] }
wayland-protocols-wlr = { version = "0.3", features = ["client"] }
