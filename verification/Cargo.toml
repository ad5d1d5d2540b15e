[package]
name = "expense_resolver"
version = "0.1.0"
edition = "2021"
publish = false

[dependencies]
serde = { version = "1", features = ["derive"] }
serde_json = "1"
hyper = { version = "0.14", features = ["client", "http1", "tcp"] }
hyper-tls = "0.5"
futures = "0.3"
tokio = { version = "1", features = ["macros", "rt-multi-thread"] }
chrono = "0.4"
sqlite = "0.26"
