[package]
name = "duzzy"
version = "0.1.0"
edition = "2021"
publish = false

[dependencies]
ropey = { version = "1.6", default-features = false, features = ["simd"] }
regex = "1"
anyhow = "1"
thiserror = "1"
serde = { version = "1", features = ["derive"] }
serde_json = "1"
toml = "0.8"
tokio = { version = "1", features = ["rt-multi-thread", "macros", "time"] }
tokio-postgres = "0.7"
deadpool-postgres = "0.12"
ratatui = "0.26"
crossterm = { version = "0.27", features = ["event-stream"] }
futures-util = "0.3"
arboard = "3"
once_cell = "1"
smartstring = "1"
