[package]
name = "lyre"
version = "0.1.0"
edition = "2021"
publish = false

[dependencies]
fnv = "1"
uuid = { version = "1", features = ["v4"] }
unicode-width = "0.2"
ratatui = "*"
crossterm = "*"
color-eyre = "*"
lofty = "*"
serde = { version = "1", features = ["derive"] }
serde_json = "1"
rayon = "*"
thiserror = "*"
