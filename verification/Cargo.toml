[package]
name = "fastdel"
version = "1.0.0"
edition = "2021"
publish = false

[dependencies]
anyhow = "1"
clap = { version = "4", features = ["derive"] }
colored = "2"
indicatif = "0.17"
tokio = { version = "1", features = ["fs", "macros", "rt-multi-thread"] }
