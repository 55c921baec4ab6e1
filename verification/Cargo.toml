[package]
name = "punktfunk"
version = "0.1.0"
edition = "2021"
publish = false

[dependencies]
rand = "=0.9.5"
serde = { version = "=1.0.229", features = ["derive"] }
serde_json = "=1.0.154"
tokio = { version = "=1.54.1", features = ["sync", "rt", "time", "macros"] }
libc = "=0.2.191"
if-addrs = "=0.15.0"
opus = "=0.4.0"
anyhow = "=1.0.104"
tracing = "=0.1.44"
ashpd = { version = "*", default-features = false, features = ["tokio"] }
utoipa = "*"
