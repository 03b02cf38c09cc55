[package]
name = "text_search"
version = "0.1.0"
edition = "2021"
publish = false

[dependencies]
grep = "0.3"
ignore = "0.4"
regex = "1"
anyhow = "1"
clap = { version = "4", features = ["derive"] }
serde = { version = "1", features = ["derive"] }
serde_json = "1"
