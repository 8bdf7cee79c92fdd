[package]
name = "tsttr"
version = "0.1.0"
edition = "2021"
publish = false

[dependencies]
anyhow = "1"
config = { version = "*", default-features = false, features = ["yaml"] }
crossbeam-channel = "0.5"
dirs = "*"
regex = "1"
serde = { version = "1", features = ["derive"] }
winapi = { version = "0.3", features = ["winuser", "windef"] }
