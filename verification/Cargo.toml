[package]
name = "wordcount"
version = "0.1.0"
edition = "2021"
publish = false

[dependencies]
regex = "=1.13.1"
serde = { version = "=1.0.229", features = ["derive"] }
serde_derive = "=1.0.229"
mdbook = { version = "=0.4.52", default-features = false }
