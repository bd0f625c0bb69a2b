[package]
name = "ebobo"
version = "0.1.0"
edition = "2021"
publish = false

[dependencies]
chrono = { version = "0.4", features = ["serde"] }
serde = { version = "1", features = ["derive"] }
serde_json = "1"
rocket = { version = "0.5", features = ["json"] }
rocket_ws = "0.1"
sea-orm = { version = "0.12", default-features = false, features = ["macros", "with-uuid", "with-chrono"] }
shuttle-persist = "*"
futures = "0.3"
tokio = { version = "1", features = ["time"] }
sycamore = "0.9"
sycamore-router = "0.9"
web-sys = { version = "0.3", features = ["WebSocket", "MessageEvent"] }
reqwasm = "0.5"
