[package]
name = "code_judge"
version = "0.1.0"
edition = "2021"
publish = false

[dependencies]
anyhow = "*"
clap = { version = "4", features = ["derive"] }
colored = "*"
serde = { version = "1", features = ["derive"] }
serde_json = "1"
tracing = "*"
tracing-subscriber = "*"
ureq = { version = "2", features = ["json"] }
