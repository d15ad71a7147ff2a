[package]
name = "webfox"
version = "0.1.0"
edition = "2021"
publish = false

[dependencies]
clap = "2"
reqwest = { version = "0.12", features = ["blocking", "json", "multipart"] }
serde_json = "1"
termcolor = "1"
