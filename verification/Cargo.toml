[package]
name = "game_of_life"
version = "0.1.0"
edition = "2021"
publish = false

[dependencies]
colored = "2"
crossterm = "0.28"
include_dir = "0.7"
rand = "0.8"
ratatui = "0.29"
tui = { version = "0.19", default-features = false }
