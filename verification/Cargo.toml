[package]
name = "media_transcriber"
version = "0.1.0"
edition = "2021"
publish = false

[dependencies]
anyhow = "*"
chrono = "*"
clap = { version = "*", features = ["derive", "env"] }
colored = "*"
dotenv = "*"
env_logger = "*"
log = "*"
reqwest = { version = "*", default-features = false }
rss = "*"
serde_json = "*"
tempfile = "*"
thiserror = "*"
tokio = { version = "*", features = ["macros", "rt-multi-thread"] }
