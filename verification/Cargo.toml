[package]
name = "vpndetection"
version = "5.0.0"
edition = "2021"
publish = false

[dependencies]
chrono = "0.4"
futures-util = "0.3"
indexmap = "2"
ipnet = "2"
moka = { version = "0.12", features = ["future"] }
reqwest = { version = "0.13", default-features = false, features = ["form", "json", "query"] }
serde = { version = "1", features = ["derive"] }
serde_json = "1"
tokio = { version = "1", features = ["fs", "io-util", "macros", "net", "rt", "rt-multi-thread", "sync", "time"] }
