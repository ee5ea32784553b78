[package]
name = "sevenmark"
version = "0.1.0"
edition = "2021"
publish = false

[dependencies]
percent-encoding = "=2.3.2"
ls-types = "=0.0.6"
css-sanitizer = "=0.4.0"
serde = { version = "=1.0.229", features = ["derive"] }
serde_json = "=1.0.154"
