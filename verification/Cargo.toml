[package]
name = "namespacedkey"
version = "0.1.0"
edition = "2021"
publish = false

[dependencies]
internment = "*"
unicode-width = "*"
serde = { version = "*", features = ["derive"] }
