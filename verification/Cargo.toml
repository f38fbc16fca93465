[package]
name = "usbrelay_rs"
version = "0.1.0"
edition = "2021"
publish = false

[dependencies]
anyhow = "1"
clap = { version = "4", features = ["derive"] }
hidapi-rusb = "*"
log = "0.4"
simple_logger = "*"
