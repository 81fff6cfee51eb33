[package]
name = "http_tui"
version = "0.1.0"
edition = "2021"
publish = false

[dependencies]
ratatui = "=0.29.0"
crossterm = "=0.28.1"
tui-textarea = "=0.7.0"
edtui = "=0.9.9"
reqwest = { version = "=0.12.28", default-features = false, features = ["rustls-tls"] }
tokio = { version = "=1.54.1", features = ["full"] }
color-eyre = "=0.6.5"
serde_json = "=1.0.154"
uuid = { version = "=1.29.0", features = ["v4"] }
