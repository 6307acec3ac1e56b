[package]
name = "theta_vault_rust"
version = "0.1.0"
edition = "2021"
publish = false

[dependencies]
chrono = "0.4"
serde = { version = "1", features = ["derive"] }
serde_json = "1"
rusqlite = { version = "0.31", features = ["bundled"] }
crossterm = "0.27"
ratatui = "0.26"
tokio = { version = "1", features = ["rt-multi-thread", "macros", "time"] }
