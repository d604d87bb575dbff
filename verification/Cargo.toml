[package]
name = "zonetime"
version = "0.1.0"
edition = "2021"
publish = false

[dependencies]
chrono = { version = "=0.4.45", default-features = false, features = ["std"] }
chrono-tz = "=0.10.4"
console_error_panic_hook = "0.1"
gloo-utils = "0.1"
js-sys = "0.3"
wasm-bindgen = "0.2"
web-sys = { version = "0.3", features = ["console", "Document", "Element", "HtmlInputElement", "HtmlSelectElement"] }
yew = "0.19"
yew-router = "0.16"
