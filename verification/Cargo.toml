[package]
name = "ingot"
version = "0.1.0"
edition = "2021"
publish = false

[dependencies]
object = { version = "0.36", features = ["write"] }
miette = { version = "7", features = ["fancy"] }
thiserror = "2"
clap = { version = "4", features = ["derive"] }
