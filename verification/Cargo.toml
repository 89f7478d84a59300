[package]
name = "herdr"
version = "0.1.0"
edition = "2021"
publish = false

[dependencies]
base64 = "=0.22.1"
bytes = "=1.12.1"
cpal = "=0.18.2"
crossterm = "=0.29.0"
getrandom = "=0.3.4"
interprocess = "=2.4.7"
libc = "=0.2.191"
opus = "0.3"
portable-pty = "=0.9.0"
serde = { version = "=1.0.229", features = ["derive"] }
serde_json = { version = "=1.0.154", features = ["raw_value"] }
sha2 = "=0.10.9"
tokio = { version = "=1.54.1", features = ["macros", "rt-multi-thread", "sync", "time"] }
toml = "=0.8.23"
tracing = "=0.1.44"
unicode-width = "=0.2.3"
webrtc = "0.17"
