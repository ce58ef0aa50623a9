[package]
name = "marketplace"
version = "0.1.0"
edition = "2021"
publish = false

[dependencies]
uuid = { version = "1", features = ["v4"] }
sqlx = { version = "0.8", default-features = false, features = ["postgres", "runtime-tokio", "derive", "chrono"] }
tokio = { version = "1", features = ["full"] }
tokio-tungstenite = "0.20"
tungstenite = "0.20"
futures = "0.3"
serde = { version = "1", features = ["derive"] }
serde_json = "1"
chrono = { version = "0.4", features = ["serde"] }
anyhow = "1"
log = "0.4"
yew = { version = "0.20", features = ["csr"] }
yew-router = "0.17"
wasm-bindgen = "0.2"
wasm-bindgen-futures = "0.4"
wasm-logger = "0.2"
web-sys = { version = "0.3", features = ["HtmlInputElement", "HtmlVideoElement", "HtmlMediaElement", "MediaStreamConstraints", "MediaDevices", "MediaStream", "Navigator", "Window", "WebSocket", "MessageEvent", "Event", "EventTarget"] }
