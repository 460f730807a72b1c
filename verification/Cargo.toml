[package]
name = "herdr"
version = "0.1.0"
edition = "2021"
publish = false

[dependencies]
ratatui = { version = "=0.30.2", default-features = false, features = ["underline-color"] }
tokio = { version = "=1.54.1", default-features = false, features = ["sync"] }
