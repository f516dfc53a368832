[package]
name = "redfoam"
version = "0.1.0"
edition = "2021"
publish = false

[dependencies]
inotify = "*"
libc = "*"
serde = { version = "*", features = ["derive"] }
toml = "*"
