[package]
name = "collabrustator"
version = "0.1.0"
edition = "2021"
publish = false

[dependencies]
serde = { version = "=1.0.229", features = ["derive"] }
serde_json = "=1.0.154"
uuid = { version = "=1.29.0", features = ["v4"] }
syntect = { version = "=5.3.0", default-features = false, features = ["default-fancy"] }
warp = "=0.3.7"
tokio = { version = "=1.54.1", features = ["macros", "rt-multi-thread"] }
redis = "=0.23.5"
futures = "=0.3.34"
log = "=0.4.35"
env_logger = "=0.10.2"
yew = "=0.19.3"
yew-router = "=0.16.0"
gloo-timers = "=0.2.6"
web-sys = { version = "=0.3.107", features = ["HtmlTextAreaElement", "HtmlInputElement", "Window", "Document", "Element", "InputEvent", "KeyboardEvent", "EventTarget"] }
wasm-bindgen = "=0.2.130"
reqwest = { version = "=0.11.27", default-features = false, features = ["json"] }
yew-websocket = "=0.1.1"
