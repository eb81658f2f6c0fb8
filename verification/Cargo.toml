[package]
name = "latex_snippet"
version = "0.1.0"
edition = "2021"
publish = false

[dependencies]
regex = "1"
wasm-bindgen = "0.2"
console_error_panic_hook = "0.1"
auto-args = "*"
tempfile = "3"
