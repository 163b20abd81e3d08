[package]
name = "skip_delta"
version = "0.1.0"
edition = "2021"
publish = false

[dependencies]
clap = { version = "4", features = ["derive"] }
rust-htslib = { version = "*", default-features = false }
