[package]
name = "webmention_receiver"
version = "0.1.0"
edition = "2021"
publish = false

[dependencies]
url = "2"
uuid = { version = "1", features = ["v4", "serde"] }
chrono = "0.4"
rusqlite = { version = "0.31", features = ["bundled", "backup", "uuid"] }
hyper = { version = "0.14", features = ["full"] }
tokio = { version = "1", features = ["macros", "rt-multi-thread"] }
serde = { version = "1", features = ["derive"] }
serde_urlencoded = "0.7"
tera = { version = "1", default-features = false }
toml = "0.8"
log = "0.4"
env_logger = "0.10"
mime_guess = "2"
