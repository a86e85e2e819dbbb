[package]
name = "screencopy"
version = "0.1.0"
edition = "2021"
publish = false

[dependencies]
wayland-server = "=0.30.1"
wayland-protocols-wlr = { version = "=0.1.0", features = ["server"] }

[dev-dependencies]
wayland-client = "=0.30.2"
wayland-protocols-wlr = { version = "=0.1.0", features = ["client", "server"] }
socket2 = { version = "0.5", features = ["all"] }
