[package]
name = "audium"
version = "0.1.0"
edition = "2021"
publish = false

[dependencies]
rand = "0.9"
rustc-hash = "2"
ratatui = "*"
rodio = "*"
lofty = "*"
serde = { version = "1", features = ["derive"] }
serde_json = "1"
xdg = "*"
anyhow = "1"
clap = { version = "4", features = ["derive"] }
