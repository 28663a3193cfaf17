[package]
name = "memthol"
version = "0.1.0"
edition = "2021"
publish = false

[dependencies]
clap = "=2.34.0"
gotham = { version = "0.5", default-features = false }
websocket = { version = "=0.26.5", default-features = false, features = ["sync"] }
