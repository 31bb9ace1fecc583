[package]
name = "fht_compositor"
version = "0.1.0"
edition = "2021"
publish = false

[dependencies]
smithay = { version = "=0.7.0", default-features = false, features = ["desktop", "wayland_frontend"] }
rustix = { version = "=1.1.5", features = ["time"] }
serde = { version = "=1.0.229", features = ["derive"] }
profiling = "=1.0.18"
