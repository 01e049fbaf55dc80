[package]
name = "gptranslate"
version = "0.1.0"
edition = "2021"
publish = false

[dependencies]
chrono = "*"
dirs = "*"
ollama-rs = "*"
reqwest = { version = "*", default-features = false, features = ["blocking"] }
tokio = { version = "*", features = ["rt"] }
url = "*"
uuid = { version = "*", features = ["v4"] }
