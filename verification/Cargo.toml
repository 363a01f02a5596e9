[package]
name = "recog"
version = "0.1.0"
edition = "2021"
publish = false

[dependencies]
regex = "*"
base64 = "*"
serde = { version = "*", features = ["derive"] }
serde_json = "*"
quick-xml = { version = "*", features = ["serialize"] }
clap = { version = "*", features = ["derive"] }
thiserror = "*"
tokio = { version = "*", features = ["fs", "io-util", "rt", "rt-multi-thread", "macros"] }
