[package]
name = "trowel"
version = "0.1.0"
edition = "2021"
publish = false

[dependencies]
clap = { version = "*", features = ["derive"] }
color-eyre = "*"
ratatui = "*"
serde_json = "*"
tempfile = "*"
tokio = { version = "*", features = ["macros", "process", "io-util", "sync", "rt-multi-thread"] }
tui-scrollview = "*"
tui-tree-widget = "*"
