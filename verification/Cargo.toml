[package]
name = "grade"
version = "0.1.0"
edition = "2021"
publish = false

[dependencies]
calamine = "=0.21.2"
failure = "=0.1.8"
latex = "=0.3.1"
serde = { version = "=1.0.229", features = ["derive"] }
serde_json = "=1.0.154"
