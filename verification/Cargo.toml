[package]
name = "glowlay"
version = "0.1.0"
edition = "2021"
publish = false

[dependencies]
serde = { version = "1", features = ["derive"] }
toml = "0.8"
sysinfo = "0.29"
nvml-wrapper = "0.9"
gtk4 = "*"
gtk4-layer-shell = "*"
