[package]
name = "endbasic_store"
version = "0.1.0"
edition = "2021"
publish = false

[dependencies]
js-sys = "0.3"
serde = { version = "1", features = ["derive"] }
serde_json = "1"
time = { version = "0.2", features = ["serde"] }
web-sys = { version = "0.3", features = ["Storage", "Window"] }
