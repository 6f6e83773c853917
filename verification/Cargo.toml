[package]
name = "bevy_wasm_tasks"
version = "0.1.0"
edition = "2021"
publish = false

[dependencies]
bevy_app = "*"
bevy_ecs = "*"
tokio = { version = "*", features = ["rt", "rt-multi-thread", "sync", "time"] }
flume = "*"
futures-util = { version = "*", features = ["channel"] }
