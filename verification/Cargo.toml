[package]
name = "tokio_delayed_queue"
version = "0.1.0"
edition = "2021"
publish = false

[dependencies]
async-condvar-fair = "=1.0.1"
parking_lot = { version = "=0.12.5", features = ["send_guard"] }
tokio = { version = "=1.54.1", features = ["time", "rt"] }
