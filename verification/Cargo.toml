[package]
name = "devcore"
version = "0.1.0"
edition = "2021"
publish = false

[dependencies]
serde = { version = "=1.0.229", features = ["derive"] }
serde_json = "=1.0.154"
sha2 = "=0.10.9"
slint = { version = "=1.8.0", default-features = false, features = ["compat-1-2", "std"] }
smithay = { version = "=0.7.0", default-features = false, features = ["backend_winit", "renderer_gl", "wayland_frontend", "desktop"] }
tracing-subscriber = { version = "0.3", features = ["env-filter"] }
wayland-protocols = { version = "0.32", features = ["server"] }
wayland-server = "0.31"
winit = "0.30"
zbus = { version = "=4.4.0", features = ["option-as-array"] }
