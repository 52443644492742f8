[package]
name = "velaris_lead_gen"
version = "0.1.0"
edition = "2021"
publish = false

[dependencies]
chrono = { version = "=0.4.45", features = ["serde"] }
uuid = { version = "=1.29.1", features = ["v4"] }
serde = { version = "=1.0.229", features = ["derive"] }
serde_json = "=1.0.154"
thiserror = "=1.0.69"
anyhow = "=1.0.104"
colored = "=2.2.0"
indicatif = "=0.17.11"
futures = "=0.3.34"
tokio = { version = "=1.54.1", features = ["macros", "rt-multi-thread", "time"] }
reqwest = { version = "=0.12.28", default-features = false, features = ["rustls-tls"] }
chromiumoxide = { version = "=0.7.0", default-features = false, features = ["tokio-runtime"] }
