[package]
name = "triggerman"
version = "0.1.0"
edition = "2021"
publish = false

[dependencies]
tokio = { version = "*", features = ["full"] }
notify-debouncer-full = "*"
serde = { version = "*", features = ["derive"] }
serde_json = "*"
tracing = "*"
tracing-subscriber = { version = "*", features = ["env-filter", "fmt"] }
awaitgroup = "*"
rquickjs = { version = "*", features = ["loader", "futures", "parallel"] }
