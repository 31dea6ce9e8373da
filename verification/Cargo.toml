[package]
name = "fuzzy"
version = "0.1.0"
edition = "2021"
publish = false

[dependencies]
clipboard = "=0.5.0"
crossbeam = "=0.8.5"
docopt = "=1.1.1"
rustbox = "=0.11.0"
serde = { version = "=1.0.229", features = ["derive"] }
