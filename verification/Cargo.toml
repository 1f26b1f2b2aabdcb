[package]
name = "pngcheck"
version = "0.1.0"
edition = "2021"
publish = false

[dependencies]
byteorder = "1"
miniz_oxide = "0.8"
clap = { version = "4", features = ["derive"] }
