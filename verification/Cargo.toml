[package]
name = "chira"
version = "0.1.0"
edition = "2021"
publish = false

[dependencies]
chrono = "=0.4.45"
ratatui = "=0.30.2"
shell-words = "=1.1.1"
toml = "=1.1.8"
toml_edit = "=0.25.17"
