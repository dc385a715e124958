[package]
name = "sketchpad"
version = "0.1.0"
edition = "2021"
publish = false

[dependencies]
wasm-bindgen = "*"
wasm-bindgen-futures = "*"
web-sys = { version = "*", features = ["Window", "Document", "Element", "Node", "EventTarget", "HtmlCanvasElement", "HtmlButtonElement", "HtmlParagraphElement", "CanvasRenderingContext2d", "ImageData", "MouseEvent", "Event", "Request", "RequestInit", "RequestMode", "Response", "console"] }
serde = { version = "*", features = ["derive"] }
serde-wasm-bindgen = "*"
console_error_panic_hook = "*"
