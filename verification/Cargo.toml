[package]
name = "postmessage_bridge"
version = "0.1.0"
edition = "2021"
publish = false

[dependencies]
crossbeam = "*"
serde = { version = "*", features = ["derive"] }
serde_json = "*"
serde-wasm-bindgen = "*"
wasm-bindgen = "*"
web-sys = { version = "*", features = ["Window", "MessageEvent", "Event", "EventTarget"] }
gloo = "*"
