[package]
name = "organiser"
version = "0.1.0"
edition = "2021"
publish = false

[dependencies]
regex = "1"
chrono = "0.4"
zip = { version = "0.6", default-features = false, features = ["deflate"] }
inotify = "0.10"
tokio = { version = "1", features = ["macros", "rt-multi-thread"] }
tokio-stream = "0.1"
serde = { version = "1", features = ["derive"] }
serde_yaml = "0.9"
serde_regex = "1"
log = { version = "0.4", features = ["kv"] }
std-logger = "0.5"
