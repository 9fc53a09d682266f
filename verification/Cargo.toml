[package]
name = "anitrack"
version = "0.1.0"
edition = "2021"
publish = false

[dependencies]
anyhow = "1"
chrono = "0.4"
clap = { version = "4", features = ["derive"] }
crossterm = "0.28"
dirs = "5"
libc = "0.2"
ratatui = "0.29"
rusqlite = { version = "0.32", features = ["bundled"] }
serde_json = "1"
ureq = "2"
