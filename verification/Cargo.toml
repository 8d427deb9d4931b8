[package]
name = "nextjlc"
version = "0.1.0"
edition = "2021"
publish = false

[dependencies]
regex = "1"
fancy-regex = "*"
md-5 = "0.10"
rand = "0.9"
chrono = { version = "0.4", default-features = false, features = ["clock"] }
wasm-bindgen = "0.2"
js-sys = "0.3"
