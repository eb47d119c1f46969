[package]
name = "fs_snapshot"
version = "0.1.0"
edition = "2021"
publish = false

[dependencies]
anyhow = "1"
tokio = { version = "1", features = ["fs", "rt", "rt-multi-thread", "macros"] }
