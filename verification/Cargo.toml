[package]
name = "layer_shika"
version = "0.1.0"
edition = "2021"
publish = false

[dependencies]
slab = "=0.4.12"
smithay-client-toolkit = { version = "=0.20.0", default-features = false, features = ["calloop"] }
wayland-client = "0.31"
wayland-protocols = { version = "0.32", features = ["client", "staging"] }
log = "0.4"
thiserror = "2"
spin_on = "0.1"
raw-window-handle = "0.6"
glutin = { version = "0.32", default-features = false, features = ["egl", "wayland"] }
xkbcommon = { version = "0.8", default-features = false }
