[package]
name = "marketboard_aggregator"
version = "0.1.0"
edition = "2021"
publish = false

[dependencies]
tokio = { version = "*", features = ["macros", "rt-multi-thread"] }
reqwest = { version = "*", default-features = false }
reqwest-middleware = "*"
reqwest-retry = "*"
serde = { version = "*", features = ["derive"] }
serde_json = "*"
sqlx = { version = "*", default-features = false, features = ["mysql", "runtime-tokio"] }
url = "*"
clap = { version = "*", features = ["derive"] }
futures = "*"
thiserror = "*"
dotenv = "*"
envy = "*"
