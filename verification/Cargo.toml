[package]
name = "dairi"
version = "0.1.0"
edition = "2021"
publish = false

[dependencies]
axum = "0.5"
bytes = "1"
dirs = "4"
futures = "0.3"
hyper = { version = "0.14", features = ["full"] }
once_cell = "1"
pico-args = "0.5"
regex = "1"
serde = { version = "1", features = ["derive"] }
serde_json = "1"
sysinfo = "0.26"
thiserror = "1"
tokio = { version = "1", features = ["full"] }
toml = "0.5"
tower = { version = "0.4", features = ["util", "timeout"] }
tracing = "0.1"
tracing-subscriber = "0.3"
