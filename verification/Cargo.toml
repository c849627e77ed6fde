[package]
name = "rustify"
version = "0.1.0"
edition = "2021"
publish = false

[dependencies]
rand = "0.9"
crossbeam = "0.8"
crossterm = "0.28"
ratatui = "0.29"
serde = { version = "1", features = ["derive"] }
toml = "0.8"
dirs = "6"
walkdir = "2"
lofty = "0.22"
symphonia = { version = "0.5", features = ["mp3", "flac", "ogg", "wav"] }
cpal = "0.15"
rustfft = "6"
ureq = "3"
pyo3 = "0.23"

[dev-dependencies]
serde_json = "1"
tempfile = "3"
