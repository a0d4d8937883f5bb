[package]
name = "say_hi"
version = "0.1.0"
edition = "2021"
publish = false

[dependencies]
near-bindgen = "=0.6.0"
borsh = "=0.6.2"
serde = { version = "1", features = ["derive"] }
serde_json = "1"
syn = "=1.0.57"
