[package]
name = "pngcheck"
version = "0.1.0"
edition = "2021"
publish = false

[dependencies]
crc = "3"
flate2 = "1"
clap = { version = "4", features = ["derive"] }
color-eyre = "0.6"
crossterm = "0.27"
ratatui = "0.26"
image = { version = "0.24", default-features = false }
viuer = "0.7"
