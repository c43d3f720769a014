[package]
name = "pawchat_kv"
version = "0.1.0"
edition = "2021"
publish = false

[dependencies]
axum = "=0.7.9"
dashmap = "=6.2.1"
postcard = { version = "=1.1.3", default-features = false, features = ["use-std"] }
redb = "=2.6.4"
serde = { version = "1", features = ["derive"] }
serde_json = "1"
subtle = "=2.6.1"
tokio = { version = "=1.54.1", features = ["macros", "net", "rt-multi-thread", "sync", "time"] }
tower = { version = "=0.5.3", features = ["limit", "load-shed", "util"] }
tracing = "0.1"
tracing-subscriber = { version = "0.3", features = ["env-filter"] }

[dev-dependencies]
tempfile = "=3.27.0"
tokio = { version = "=1.54.1", features = ["test-util"] }
