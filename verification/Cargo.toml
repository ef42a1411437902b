[package]
name = "rinha_eval"
version = "0.1.0"
edition = "2021"
publish = false

[dependencies]
rinha = "*"
clap = { version = "*", features = ["derive"] }
serde_json = "*"
miette = "*"
