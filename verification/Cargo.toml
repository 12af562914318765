[package]
name = "sandbox_serve"
version = "0.1.0"
edition = "2021"
publish = false

[dependencies]
percent-encoding = "2"
tiny_http = "0.12"
chrono = { version = "0.4", default-features = false, features = ["clock"] }
ctrlc = "3"
