[package]
name = "rw5_file_parser"
version = "0.1.0"
edition = "2021"
publish = false

[dependencies]
anyhow = "1"
chrono = "0.4"
clap = { version = "4", features = ["derive"] }
derive_more = { version = "*", features = ["from"] }
itertools = "*"
rinex = "*"
serde = { version = "1", features = ["derive"] }

[dev-dependencies]
serde_json = "1"
