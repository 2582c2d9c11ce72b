[package]
name = "pal_occupy_bot"
version = "0.1.0"
edition = "2021"
publish = false

[dependencies]
chrono = "*"
anyhow = "*"
sqlx = { version = "*", default-features = false, features = ["runtime-tokio", "postgres", "chrono", "macros"] }
tokio = { version = "*", default-features = false, features = ["macros", "rt-multi-thread"] }
toml = "*"
tracing = "*"
tracing-subscriber = "*"
