[package]
name = "task_expander"
version = "0.1.0"
edition = "2021"
publish = false

[dependencies]
chrono = { version = "0.4", default-features = false, features = ["std"] }
pathdiff = "0.2"
regex = "1"
relative-path = "1.9"
