[package]
name = "rustfmt_user_config_db"
version = "0.1.0"
edition = "2021"
publish = false

[dependencies]
anyhow = "1"
clap = { version = "4", features = ["derive"] }
dotenv = "0.15"
git2 = "*"
reqwest = { version = "*", features = ["blocking"] }
rust_search = "2"
serde = { version = "1", features = ["derive"] }
serde_json = "1"
sqlx = { version = "*", default-features = false, features = ["postgres", "runtime-tokio", "time", "json"] }
tempfile = "3"
time = { version = "0.3", features = ["serde-well-known"] }
tokio = { version = "1", features = ["rt-multi-thread"] }
toml = "*"
tracing = "0.1"
tracing-subscriber = { version = "0.3", features = ["env-filter"] }
