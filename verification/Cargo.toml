[package]
name = "ylurm"
version = "0.1.0"
edition = "2021"

[dependencies]
clap = { version = "4", features = ["derive"] }
crossterm = "0.28"
dirs = "*"
ratatui = "0.29"
serde = { version = "1", features = ["derive"] }
toml = "*"
