[package]
name = "padflow"
version = "1.2.5"
edition = "2021"
publish = false

[dependencies]
serde = { version = "1", features = ["derive"] }
serde_json = "1"
parking_lot = "0.12"
log = "0.4"
env_logger = "0.11"
anyhow = "1"
tokio = { version = "1", features = ["rt-multi-thread", "macros", "time", "sync", "signal"] }
hidapi = "2"
vigem-client = "0.1"
windows = { version = "*", features = ["Win32_Foundation", "Win32_System_Threading", "Win32_System_ProcessStatus"] }
