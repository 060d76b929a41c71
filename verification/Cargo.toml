[package]
name = "recmari"
version = "0.1.0"
edition = "2021"
publish = false

[dependencies]
image = "*"
anyhow = "*"
clap = { version = "*", features = ["derive"] }
ab_glyph = "*"
imageproc = "*"
tracing = "*"
tracing-subscriber = { version = "*", features = ["env-filter"] }
