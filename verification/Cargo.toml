[package]
name = "todo_tracker"
version = "0.1.0"
edition = "2021"
publish = false

[dependencies]
chrono = "0.4"
clap = { version = "4", features = ["cargo"] }
edit-distance = "2"
homedir = "*"
regex = "1"
