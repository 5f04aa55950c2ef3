[package]
name = "flint"
version = "0.1.0"
edition = "2021"
publish = false

[dependencies]
mlua = { version = "=0.10.5", features = ["lua54", "vendored", "serialize", "async"] }
serde = { version = "=1.0.229", features = ["derive"] }
serde_json = "=1.0.154"
directories = "=6.0.0"
dotenvy = "=0.15.7"
ratatui = "=0.29.0"
crossterm = "=0.28.1"
threadpool = "=1.8.1"
toml = "0.8"
serde_yaml = "0.9"
tui-textarea = "0.7"
tokio = { version = "1", features = ["rt-multi-thread"] }
csv = "1"
ignore = "0.4"
clap = { version = "4", features = ["derive"] }
