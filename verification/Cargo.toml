[package]
name = "fpl"
version = "0.1.0"
edition = "2021"
publish = false

[dependencies]
chrono = { version = "0.4", default-features = false, features = ["std"] }
ordinal = "0.3"
fuzzy-matcher = "0.3"
thousands = "0.2"
serde = { version = "1", features = ["derive"] }
serde_json = "1"
thiserror = "1"
reqwest = { version = "0.12", default-features = false, features = ["rustls-tls"] }
governor = { version = "0.6", default-features = false, features = ["std"] }
tokio = { version = "1", features = ["macros", "rt-multi-thread"] }
tracing = "0.1"
tracing-subscriber = { version = "0.3", default-features = false, features = ["env-filter", "fmt", "std", "registry"] }
dotenv = "0.15"
sqlx = { version = "0.8", default-features = false, features = ["postgres", "runtime-tokio", "macros", "chrono"] }
poise = "0.6"
futures = "0.3"
once_cell = "1"
svg = "0.17"
resvg = "0.44"
font-kit = "0.14"
rusttype = "0.9"
