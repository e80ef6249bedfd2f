[package]
name = "rss_chat"
version = "0.1.0"
edition = "2021"
publish = false

[dependencies]
axum = { version = "*", features = ["ws"] }
cfg-if = "*"
chrono = { version = "*", features = ["serde"] }
codee = { version = "*", features = ["msgpack_serde", "json_serde"] }
comrak = { version = "*", default-features = false }
env_logger = "*"
futures = "*"
js-sys = "*"
leptos = { version = "*", features = ["ssr"] }
leptos_axum = "*"
leptos_meta = "*"
leptos_router = "*"
leptos-use = "*"
log = "*"
serde = { version = "*", features = ["derive"] }
thiserror = "*"
tokio = { version = "*", features = ["full"] }
wasm-bindgen-futures = "*"
web-sys = { version = "*", features = ["Notification", "VisibilityState", "CustomEvent", "EventTarget", "HtmlElement"] }
