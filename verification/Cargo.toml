[package]
name = "lareview"
version = "0.1.0"
edition = "2021"
publish = false

[dependencies]
chrono = "=0.4.45"
raw-window-handle = "0.6"
serde_json = "=1.0.154"
unidiff = "=0.3.4"
