[package]
name = "clint"
version = "0.1.0"
edition = "2021"
publish = false

[dependencies]
regex = "1"
rand = "0.8"
serde = { version = "1", features = ["derive"] }
serde_json = "1"
clap = { version = "4", features = ["derive"] }
dialoguer = "0.11"
atty = "0.2"
tokio = { version = "1", features = ["rt-multi-thread"] }
warp = { version = "0.3", default-features = false }
