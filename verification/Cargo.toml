[package]
name = "agent"
version = "0.1.0"
edition = "2021"
publish = false

[dependencies]
serde = { version = "1", features = ["derive"] }
serde_json = "1"
rust_decimal = "1"
uuid = { version = "1", features = ["v4"] }
chrono = { version = "0.4", default-features = false, features = ["clock", "std"] }
tokio = { version = "1", features = ["sync", "rt", "macros", "time", "process", "fs"] }
futures = "0.3"
async-trait = "0.1"
async-stream = "0.3"
thiserror = "2"
reqwest = { version = "0.12", default-features = false, features = ["json", "stream"] }
