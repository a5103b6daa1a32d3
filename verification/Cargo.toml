[package]
name = "chaos_type"
version = "0.1.0"
edition = "2021"
publish = false

[dependencies]
clap = { version = "*", features = ["derive"] }
crossterm = "*"
futures = "*"
ratatui = "*"
tokio = { version = "*", features = ["macros", "rt-multi-thread", "net", "sync", "time"] }
tokio-tungstenite = "*"
