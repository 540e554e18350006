[package]
name = "numbat_proc"
version = "0.1.0"
edition = "2021"
publish = false

[dependencies]
numbat = "*"
anyhow = "*"
clap = { version = "*", features = ["derive"] }
