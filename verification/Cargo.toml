[package]
name = "hft_data_generator"
version = "0.1.0"
edition = "2021"
publish = false

[dependencies]
actix-cors = "0.7"
actix-governor = "0.5"
actix-web = "4"
actix-ws = "0.3"
chrono = "0.4"
clickhouse = "0.11"
dashmap = "6"
futures-util = "0.3"
lazy_static = "1.5.0"
prometheus = "0.14.0"
rand = "0.8"
rand_distr = "0.4"
rust_decimal = "1"
serde = { version = "1", features = ["derive"] }
serde_json = "1"
thiserror = "1.0.69"
tokio = { version = "1", features = ["full"] }
tokio-util = "0.7"
toml = "0.8"
tracing = "0.1"
tracing-subscriber = { version = "0.3", features = ["env-filter"] }
uuid = { version = "1", features = ["v4"] }
