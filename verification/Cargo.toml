[package]
name = "poly_router"
version = "0.1.0"
edition = "2021"
publish = false

[dependencies]
crossterm = "*"
midir = "*"
ratatui = "*"
ratatui-textarea = "*"
serde = { version = "1", features = ["derive"] }
serde-saphyr = "*"
tui-menu = "*"
