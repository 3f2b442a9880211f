[package]
name = "cinnamon-wallpaper"
version = "1.0.0"
edition = "2021"
publish = false

[dependencies]
anyhow = "1"
clap = { version = "4", features = ["derive"] }
dirs = "5"
env_logger = "0.11"
gdk4 = { version = "0.9", features = ["v4_10"] }
gdk-pixbuf = "0.20"
gio = "0.20"
gstreamer = "0.23"
gstreamer-app = "0.23"
gstreamer-video = "0.23"
gtk4 = { version = "0.9", features = ["v4_10"] }
libc = "0.2"
log = "0.4"
notify = "6"
once_cell = "1"
serde = { version = "1", features = ["derive"] }
tokio = { version = "1", features = ["full"] }
toml = "0.8"
walkdir = "2"
x11rb = { version = "0.13", features = ["randr", "shape"] }
