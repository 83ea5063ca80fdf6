[package]
name = "ttt"
version = "0.1.0"
edition = "2021"
publish = false

[dependencies]
rand = "0.9"
ratatui = "0.29"
tui-input = { version = "*", default-features = false }
