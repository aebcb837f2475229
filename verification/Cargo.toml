[package]
name = "skillcheck"
version = "0.1.0"
edition = "2021"
publish = false

[dependencies]
gray_matter = "*"
unicode-normalization = "*"
serde = { version = "*", features = ["derive"] }
serde_json = "*"
clap = { version = "*", features = ["derive"] }
thiserror = "*"
