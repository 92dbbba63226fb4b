[package]
name = "stemmer_service"
version = "0.1.0"
edition = "2021"
publish = false

[dependencies]
rust-stemmers = "*"
serde = { version = "*", features = ["derive"] }
serde_json = "*"
lambda_runtime = "*"
tokio = { version = "*", features = ["macros", "rt-multi-thread"] }
tracing-subscriber = { version = "*", features = ["env-filter"] }
reverse_geocoder = "*"
