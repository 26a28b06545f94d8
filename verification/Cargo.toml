[package]
name = "project_dash"
version = "0.1.0"
edition = "2021"
publish = false

[dependencies]
clap = { version = "=4.6.7", features = ["derive", "env"] }
color-eyre = "=0.6.5"
crossterm = "=0.28.1"
git2 = "=0.21.0"
octocrab = "=0.47.1"
open = "=5.4.5"
ratatui = "=0.29.0"
tokio = { version = "=1.54.1", features = ["full"] }
