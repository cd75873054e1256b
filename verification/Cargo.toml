[package]
name = "cloudbridge"
version = "0.1.0"
edition = "2021"
publish = false

[dependencies]
anyhow = "=1.0.104"
chrono = "=0.4.45"
console_error_panic_hook = "0.1.7"
serde_json = "=1.0.154"
smol = "2"
tracing = "=0.1.44"
tracing-wasm = "0.2.1"
uuid = { version = "=1.29.0", features = ["v4"] }
wasm-bindgen = "0.2"
