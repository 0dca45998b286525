[package]
name = "motosan_agent_tool"
version = "0.3.2"
edition = "2021"
publish = false

[dependencies]
serde = { version = "=1.0.229", features = ["derive"] }
serde_json = "=1.0.154"
thiserror = "=1.0.69"
tokio = { version = "=1.54.1", features = ["process", "time", "sync", "rt", "macros", "io-util"] }
reqwest = { version = "=0.12.28", default-features = false, features = ["json", "rustls-tls"] }
calamine = "=0.38.0"
printpdf = "=0.7.0"
