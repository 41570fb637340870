[package]
name = "khal_notify"
version = "0.1.0"
edition = "2021"
publish = false

[dependencies]
regex = "*"
unicode-segmentation = "*"
clap = { version = "*", features = ["derive"] }
directories = "*"
serde = { version = "*", features = ["derive"] }
serde_json = "*"
time = "*"
