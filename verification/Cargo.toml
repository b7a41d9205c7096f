[package]
name = "wywiwya_feed"
version = "0.1.0"
edition = "2021"
publish = false

[dependencies]
chrono = "*"
worker = "*"
wasm-bindgen = "*"

[dev-dependencies]
rss = "*"
