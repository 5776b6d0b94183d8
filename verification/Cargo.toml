[package]
name = "sorted"
version = "0.1.0"
edition = "2021"
publish = false

[dependencies]
anyhow = "1"
chrono = "0.4"
crossterm = "0.28"
directories = "5"
ratatui = "0.29"
serde = { version = "1", features = ["derive"] }
sysinfo = "0.33"
toml = "0.8"
walkdir = "2"

[dev-dependencies]
tempfile = "3"
