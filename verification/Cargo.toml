[package]
name = "zed_win_keys"
version = "0.1.0"
edition = "2021"
publish = false

[dependencies]
serde_json = "1"
chrono = "0.4"
clap = { version = "4", features = ["derive"] }
dirs = "5"
zed_extension_api = "0.7"
