[package]
name = "twm_core"
version = "0.1.0"
edition = "2021"
publish = false

[dependencies]
anyhow = "1"
ctrlc = "3"
directories-next = "2"
jsonrpc-core = "*"
jsonrpc-derive = "*"
lazy_static = "1"
log = "0.4"
ron = "*"
serde = { version = "1", features = ["derive"] }
serde_json = "1"
serde_yaml = "*"
toml = "*"
tracing = "0.1"
tracing-subscriber = "*"
winapi = { version = "0.3", features = ["winuser", "windef", "minwindef"] }
