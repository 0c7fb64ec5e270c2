[package]
name = "sse_chat"
version = "0.1.0"
edition = "2021"
publish = false

[dependencies]
tokio = { version = "=1.53.2", features = ["sync", "rt-multi-thread", "macros", "time"] }
salvo = { version = "=1.0.0", default-features = false, features = ["server", "http1", "sse"] }
tokio-stream = "=0.1.19"
futures-util = "=0.3.34"
