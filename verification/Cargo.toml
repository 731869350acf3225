[package]
name = "reqwest_resume"
version = "0.1.0"
edition = "2021"
publish = false

[dependencies]
bytes = "=1.12.1"
futures = "=0.3.34"
reqwest = { version = "=0.12.28", default-features = false, features = ["stream"] }
tokio = { version = "=1.54.1", features = ["io-util", "net", "rt", "time"] }

[dev-dependencies]
http = "=1.5.0"
