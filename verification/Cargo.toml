[package]
name = "bot_core"
version = "0.1.0"
edition = "2021"
rust-version = "1.95"
publish = false

[dependencies]
chrono = "=0.4.45"
chrono-tz = "=0.10.4"
log = "=0.4.34"
pretty_env_logger = "=0.5.0"
reqwest = { version = "=0.12.28", default-features = false, features = ["json", "rustls-tls"] }
serde = { version = "=1.0.229", features = ["derive"] }
serde_json = "=1.0.154"
sqlx = { version = "=0.8.6", default-features = false, features = ["postgres", "runtime-tokio", "uuid", "migrate"] }
# teloxide-core needs takecell; its 0.1.2 asks for a newer compiler than rust-version allows.
takecell = "=0.1.1"
teloxide = { version = "=0.17.0", default-features = false, features = ["macros", "ctrlc_handler", "rustls"] }
tokio = { version = "=1.54.1", features = ["macros", "rt-multi-thread"] }
tokio-cron-scheduler = { version = "=0.15.1", features = ["signal"] }
toml = "=1.1.8"
uuid = { version = "=1.29.0", features = ["v4"] }
