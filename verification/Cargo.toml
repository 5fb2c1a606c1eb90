[package]
name = "batch_convert"
version = "0.1.0"
edition = "2021"
publish = false

[dependencies]
anyhow = "1"
clap = { version = "4", features = ["derive"] }
image = "0.25"
indicatif = { version = "0.17", features = ["rayon"] }
jwalk = "0.8"
rayon = "1"
