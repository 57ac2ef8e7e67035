[package]
name = "perspective_view"
version = "0.1.0"
edition = "2021"
publish = false

[dependencies]
js-intern = "*"
js-sys = "*"
typed-html = "*"
wasm-bindgen = "*"
wasm-bindgen-futures = "*"
web-sys = { version = "*", features = ["Blob", "CssStyleDeclaration", "Document", "Element", "HtmlElement", "Node", "Text", "Url", "Window"] }
