[package]
name = "unlock_sweep"
version = "0.1.0"
edition = "2021"
publish = false

[dependencies]
anyhow = "1"
hex = "0.4"
sha2 = "0.10"
tokio = { version = "1", features = ["macros", "process", "rt-multi-thread", "sync", "time"] }
