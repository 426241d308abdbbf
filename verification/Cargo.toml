[package]
name = "rust_nostr_wasm"
version = "0.1.0"
edition = "2021"
publish = false

[dependencies]
nostr = "0.39"
serde = { version = "1", features = ["derive"] }
wasm-bindgen = "0.2"
serde-wasm-bindgen = "0.6"
console_error_panic_hook = "0.1"
