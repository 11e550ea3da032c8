[package]
name = "dioxus_fullstack"
version = "0.1.0"
edition = "2021"
publish = false

[dependencies]
dioxus = { version = "0.4", default-features = false }
dioxus-hot-reload = "0.4"
dioxus-ssr = "0.4"
tokio = { version = "1", features = ["rt", "sync"] }
tracing = "0.1"
