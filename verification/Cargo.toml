[package]
name = "tui_tagger"
version = "0.1.0"
edition = "2021"
publish = false

[dependencies]
rusqlite = { version = "0.31", features = ["bundled"] }
walkdir = "2"
crossterm = "0.27"
ratatui = "0.26"
