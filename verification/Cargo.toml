[package]
name = "basket_catch"
version = "0.1.0"
edition = "2021"
publish = false

[dependencies]
rand = "0.8"
wasm-bindgen = "0.2"
web-sys = { version = "0.3", features = ["CanvasGradient", "CanvasRenderingContext2d", "Document", "Element", "HtmlCanvasElement", "Window"] }
