[package]
name = "sitegen"
version = "0.1.0"
edition = "2021"
publish = false

[dependencies]
comrak = "*"
serde = { version = "1", features = ["derive"] }
serde_yaml = "*"
ron = "*"
tera = "1"
