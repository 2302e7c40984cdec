[package]
name = "cmux-beads"
version = "0.2.2"
edition = "2021"
publish = false

[dependencies]
anyhow = "1"
cmux-client = "*"
crossterm = "*"
ratatui = "*"
serde = { version = "1", features = ["derive"] }
serde_json = "1"
