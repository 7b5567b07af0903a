[package]
name = "actioneer"
version = "0.1.0"
edition = "2021"
publish = false

[dependencies]
chrono = "0.4"
gtk4 = "*"
libadwaita = { version = "*", features = ["v1_5"] }
tokio = { version = "1", features = ["rt-multi-thread", "time", "sync"] }
parking_lot = "0.12"
anyhow = "1"
tracing = "0.1"
open = "5"
