[package]
name = "photo_order"
version = "0.1.0"
edition = "2021"
publish = false

[dependencies]
kamadak-exif = "*"
anyhow = "*"
clap = { version = "*", features = ["derive"] }
