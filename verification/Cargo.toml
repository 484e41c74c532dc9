[package]
name = "ytdlp_sub"
version = "0.1.0"
edition = "2021"
publish = false

[dependencies]
chrono = "0.4"
uuid = { version = "1", features = ["v4"] }
url = "2"
quick-xml = "0.37"
serde = { version = "1", features = ["derive"] }
serde_json = "1"
log = "0.4"
thiserror = "2"
tokio = { version = "1", features = ["rt-multi-thread", "macros", "process", "io-util", "sync", "time"] }
futures = "0.3"
libc = "0.2"
env_logger = "0.11"
reqwest = { version = "0.12", default-features = false, features = ["rustls-tls"] }
