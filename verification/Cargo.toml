[package]
name = "demo_room"
version = "0.1.0"
edition = "2021"
publish = false

[dependencies]
include_dir = "0.7"
once_cell = "1"
wasm-bindgen = "0.2"
web-sys = { version = "0.3", features = ["console"] }
wee_alloc = "0.4"
