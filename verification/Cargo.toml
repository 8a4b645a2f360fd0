[package]
name = "sotachaser"
version = "0.1.0"
edition = "2021"
publish = false

[dependencies]
futures = "0.3"
gloo-net = "*"
gloo-timers = { version = "0.3", features = ["futures"] }
js-sys = "0.3"
serde = { version = "1", features = ["derive"] }
wasm-bindgen = "0.2"
wasm-bindgen-futures = "0.4"
web-sys = { version = "0.3", features = ["Window", "Navigator", "Storage", "HtmlInputElement", "console"] }
yew = { version = "0.21", features = ["csr"] }
