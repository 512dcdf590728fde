[package]
name = "crabby_space"
version = "0.1.0"
edition = "2021"
publish = false

[dependencies]
anyhow = "=1.0.104"
axum = "=0.8.9"
bevy = { version = "0.19", default-features = false, features = ["std", "bevy_pbr", "bevy_gizmos", "bevy_state"] }
directories = "=6.0.0"
mlua = { version = "=0.12.2", features = ["lua54", "vendored", "serde", "send"] }
rmcp = { version = "=3.8.0", features = ["server", "macros", "transport-streamable-http-server"] }
ron = "=0.12.3"
serde = { version = "=1.0.229", features = ["derive"] }
serde_json = "=1.0.154"
tokio = { version = "=1.54.1", features = ["rt-multi-thread", "net", "time", "sync", "macros"] }
