[package]
name = "istari"
version = "0.1.0"
edition = "2021"
publish = false

[dependencies]
tokio = { version = "*", features = ["rt-multi-thread"] }
futures = "*"
crossterm = "*"
ratatui = "*"
thiserror = "*"
