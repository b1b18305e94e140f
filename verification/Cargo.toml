[package]
name = "wsup"
version = "0.1.0"
edition = "2021"
publish = false

[dependencies]
uuid = { version = "1", features = ["v4"] }
serde = { version = "1", features = ["derive"] }
serde_json = "1"
clap = { version = "4", features = ["derive"] }
crossterm = "0.28"
ratatui = "0.29"
sysinfo = "0.32"
reqwest = { version = "0.12", features = ["blocking", "json"] }
dirs = "5"
