[package]
name = "ma_timing"
version = "0.1.0"
edition = "2021"
publish = false

[dependencies]
quanta = "0.12"
web-time = "1"
once_cell = "1"
core_affinity = "0.8"
crossterm = "0.27"
ratatui = "0.25"
clap = { version = "4", features = ["derive"] }
fern = "0.6"
log = "0.4"
chrono = "0.4"
serde = { version = "1", features = ["derive"] }
