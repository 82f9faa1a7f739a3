[package]
name = "fm_core"
version = "0.1.0"
edition = "2021"
publish = false

[dependencies]
serde = { version = "=1.0.229", features = ["derive"] }
toml = "=1.1.8"
dirs = "=7.0.0"
uzers = "=0.12.2"
libc = "=0.2.191"
notify = "*"
