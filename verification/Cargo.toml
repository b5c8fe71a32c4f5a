[package]
name = "audio_bars"
version = "0.1.0"
edition = "2021"
publish = false

[dependencies]
cpal = "0.15"
crossterm = "0.28"
ratatui = "0.29"
