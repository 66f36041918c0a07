[package]
name = "test-descriptors"
version = "0.1.0"
edition = "2021"
publish = false

[dependencies]
portable-pty = "*"
tempfile = "3"
thiserror = "*"
uuid = { version = "1", features = ["v4"] }
tattoy-wezterm-term = "=0.1.0-fork.5"
