[package]
name = "korg_spectrum"
version = "0.1.0"
edition = "2021"
publish = false

[dependencies]
libpulse-binding = "=2.30.1"
libpulse-simple-binding = "=2.29.0"
midir = "=0.11.0"
rustfft = "=6.4.1"
serde = { version = "=1.0.229", features = ["derive"] }
shellexpand = "=3.1.2"
toml = "=1.1.6"
