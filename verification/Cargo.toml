[package]
name = "apin"
version = "0.1.0"
edition = "2021"
publish = false

[dependencies]
anyhow = "1"
async-walkdir = "2"
clap = { version = "4", features = ["derive"] }
crossterm = { version = "0.28", features = ["event-stream"] }
futures-util = "0.3"
indexmap = "2"
oas3 = "*"
openapiv3 = "2"
ratatui = "0.29"
reqwest = { version = "0.12", default-features = false }
serde_yaml = "0.9"
tokio = { version = "1", features = ["full"] }
tui-tree-widget = "0.23"
