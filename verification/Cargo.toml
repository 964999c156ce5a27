[package]
name = "container_viz"
version = "0.1.0"
edition = "2021"
publish = false

[dependencies]
tokio = { version = "1", features = ["full"] }
bollard = { version = "0.19", features = ["ssl"] }
ratatui = "0.29"
crossterm = "0.28"
futures-util = "0.3"
human_bytes = "0.4"
serde = { version = "1", features = ["derive"] }
toml = "0.8"
anyhow = "1"
