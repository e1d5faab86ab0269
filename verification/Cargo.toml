[package]
name = "pixiv_novel"
version = "0.1.0"
edition = "2021"
publish = false

[dependencies]
regex = "1"
json = "0.12"
sanitize-filename = "0.4"
clap = "2"
reqwest = { version = "0.11", features = ["blocking"] }
