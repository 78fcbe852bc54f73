[package]
name = "dragons_tui"
version = "0.1.0"
edition = "2021"
publish = false

[dependencies]
unicode-width = "0.2"
unicode-segmentation = "1"
crossterm = "0.28"
signal-hook = "0.3"
serde_json = "1"
