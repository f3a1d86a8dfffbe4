[package]
name = "richdiff"
version = "1.0.0"
edition = "2021"
publish = false

[dependencies]
clap = "2"
csv = "1"
handlebars = "3"
itertools = "0.10"
serde = { version = "1", features = ["derive"] }
serde_json = "1"
