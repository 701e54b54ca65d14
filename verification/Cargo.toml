[package]
name = "tcui"
version = "0.1.0"
edition = "2021"
publish = false

[dependencies]
unicode-width = "*"
unicode-segmentation = "*"
pulldown-cmark = { version = "*", default-features = false }
dirs = "*"
crossterm = "*"
ratatui = "*"
