[package]
name = "blueride_notify"
version = "0.1.0"
edition = "2021"
publish = false

[dependencies]
chrono = "*"
chrono-tz = "*"
lapin = "*"
lettre = { version = "*", default-features = false, features = ["builder", "smtp-transport", "pool", "tokio1"] }
tokio = { version = "*", features = ["full"] }
tokio-executor-trait = "*"
tokio-reactor-trait = "*"
