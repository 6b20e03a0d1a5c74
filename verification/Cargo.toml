[package]
name = "peek"
version = "1.1.0"
edition = "2021"
publish = false

[dependencies]
owo-colors = "4"
clap = { version = "4", features = ["derive"] }
procfs = "0.17"
nix = { version = "0.29", features = ["signal", "process"] }
chrono = { version = "0.4", features = ["serde"] }
serde = { version = "1", features = ["derive"] }
serde_json = "1"
anyhow = "1"
thiserror = "1"
toml = "0.8"
which = "6"
sysinfo = "0.32"
crossterm = "0.28"
ratatui = "0.29"
tokio = { version = "1", features = ["rt-multi-thread", "net", "io-util", "time", "macros", "sync"] }
tracing = "0.1"
tracing-subscriber = { version = "0.3", features = ["env-filter"] }
