[package]
name = "isu_processor"
version = "0.1.0"
edition = "2021"
publish = false

[dependencies]
rusqlite = { version = "*", features = ["bundled"] }
chrono = "*"
csv = "*"
uuid = { version = "*", features = ["v4"] }
