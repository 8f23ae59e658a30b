[package]
name = "quaso"
version = "0.1.0"
edition = "2021"
publish = false

[dependencies]
rand = "0.8"
yaml-rust2 = "*"
serde = { version = "1", features = ["derive"] }
bincode = "1"
tokio = { version = "1", features = ["full"] }
tracing = "0.1"
tracing-subscriber = { version = "0.3", features = ["chrono"] }
clap = { version = "4", features = ["derive"] }
termion = "*"
crossbeam = "0.8"
