[package]
name = "sendfiles"
version = "1.0.0"
edition = "2021"
publish = false

[dependencies]
async-channel = "2"
gtk4 = "0.9"
libadwaita = "0.7"
tokio = { version = "1", features = ["rt-multi-thread", "sync"] }
