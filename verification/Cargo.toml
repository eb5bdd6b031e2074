[package]
name = "melody_visualizer"
version = "0.1.0"
edition = "2021"
publish = false

[dependencies]
jack = "0.13"
cairo-rs = "0.20"
glib = "0.20"
gio = "0.20"
gtk4 = "0.9"
gdk4 = "0.9"
palette = "0.7"
rustfft = "6"
serde = { version = "1", features = ["derive"] }
toml = "0.8"
log = "0.4"
env_logger = "0.11"
futures = "0.3"
futures-timer = "3"
async-channel = "2"
derive_more = { version = "2", features = ["display", "from", "error"] }
itertools = "0.14"
