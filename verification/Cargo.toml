[package]
name = "tui_logger"
version = "0.1.0"
edition = "2021"
publish = false

[dependencies]
chrono = "0.4"
env_filter = "0.1"
fxhash = "0.2"
lazy_static = "1.4"
log = "0.4"
parking_lot = "0.12"
ratatui = "0.29"
tracing = "0.1"
tracing-subscriber = "0.3"
unicode-segmentation = "1"
