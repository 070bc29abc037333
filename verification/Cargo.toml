[package]
name = "grove"
version = "0.1.0"
edition = "2021"
publish = false

[dependencies]
anyhow = "1"
clap = { version = "4", features = ["derive"] }
crossterm = { version = "0.29", features = ["event-stream"] }
directories = "5"
futures = "0.3"
git2 = "0.19"
notify-debouncer-mini = "0.4"
octocrab = "0.41"
portable-pty = "0.8"
ratatui = "0.30"
serde = { version = "1", features = ["derive"] }
serde_json = "1"
tokio = { version = "1", features = ["full"] }
toml = "0.8"
tui-term = "0.3"
vt100 = "0.16"
