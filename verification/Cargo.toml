[package]
name = "shared"
version = "0.1.0"
edition = "2021"
publish = false

[dependencies]
miniz_oxide = "0.8"
serde = { version = "1", features = ["derive"] }
serde_json = "1"
bson = "2"
base64 = "0.22"
thiserror = "2"
tracing = "0.1"
leptos = { version = "0.8", features = ["csr"] }
wasm-bindgen = "0.2"
js-sys = "0.3"
web-sys = { version = "0.3", features = ["Window", "Document", "Element", "HtmlElement", "HtmlAnchorElement", "Storage", "Blob", "BlobPropertyBag", "Url", "Navigator", "Clipboard", "KeyboardEvent"] }
tracing-subscriber = "0.3"
tracing-web = "0.1"
console_error_panic_hook = "0.1"
