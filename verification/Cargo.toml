[package]
name = "veridian"
version = "0.1.0"
edition = "2021"
publish = false

[dependencies]
anyhow = "1"
flexi_logger = "*"
log = "0.4"
regex = "1"
ropey = "1"
serde = { version = "1", features = ["derive"] }
serde_yaml = "0.9"
strum_macros = "*"
tower-lsp = "0.20"
walkdir = "2"
which = "4"
