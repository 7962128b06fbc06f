[package]
name = "watch"
version = "0.1.0"
edition = "2021"
publish = false

[dependencies]
fixedbitset = "*"
js-sys = "*"
wasm-bindgen = "*"
console_error_panic_hook = "*"
wee_alloc = "*"
