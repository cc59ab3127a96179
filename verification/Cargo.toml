[package]
name = "kaf9s"
version = "0.1.0"
edition = "2021"
publish = false

[dependencies]
byteorder = "=1.5.0"
crossterm = "=0.27.0"
dirs = "=5.0.1"
ratatui = "=0.25.0"
rdkafka = "=0.36.2"
serde = { version = "=1.0.229", features = ["derive"] }
serde_yaml = "=0.8.26"
thiserror = "=1.0.69"
