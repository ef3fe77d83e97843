[package]
name = "ndn-dashboard-next"
version = "0.1.0"
edition = "2021"
publish = false

[dependencies]
bytes = "=1.12.1"
console_error_panic_hook = "0.1"
dioxus = { version = "=0.7.10", default-features = false, features = ["macro", "html", "signals", "hooks", "document", "launch"] }
js-sys = "=0.3.107"
serde = { version = "=1.0.229", features = ["derive"] }
serde_json = "=1.0.154"
tokio = { version = "=1.54.1", features = ["rt", "sync", "macros", "time"] }
toml = "=0.9.12"
tracing-subscriber = { version = "=0.3.23", features = ["env-filter"] }
wasm-bindgen = "=0.2.130"
web-sys = { version = "=0.3.107", features = ["Blob", "CssStyleDeclaration", "Document", "Element", "HtmlAnchorElement", "HtmlElement", "Node", "Storage", "Url", "Window"] }
