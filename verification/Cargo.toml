[package]
name = "delta_grep"
version = "0.1.0"
edition = "2021"
publish = false

[dependencies]
regex = "1"
unicode-segmentation = "1"
serde = { version = "1", features = ["derive"] }
