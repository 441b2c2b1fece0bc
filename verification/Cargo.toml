[package]
name = "edix"
version = "0.1.0"
edition = "2021"
publish = false

[dependencies]
syntect = { version = "4.6", default-features = false, features = ["default-fancy"] }
serde = { version = "1", features = ["derive"] }
yew = "0.17"
wasm-bindgen = "0.2"
web-sys = { version = "0.3", features = ["Window", "Document", "Element", "Node", "Text", "DomRect", "Event", "MouseEvent", "KeyboardEvent", "HtmlSelectElement"] }
