[package]
name = "kittypaws"
version = "0.1.0"
edition = "2021"
publish = false

[dependencies]
rand = "=0.8.8"
chrono = "=0.4.45"
uuid = { version = "=1.29.0", features = ["v4"] }
iso8601 = { version = "=0.6.6", features = ["serde"] }
serde = { version = "=1.0.229", features = ["derive"] }
serde_yaml = "=0.9.34"
clap = { version = "=4.6.7", features = ["derive"] }
minreq = { version = "=2.14.1", features = ["https"] }
zip = "=0.6.6"
telegraf = "=0.6.0"
pyo3 = { version = "=0.20.3", features = ["auto-initialize"] }
config = "=0.13.4"
tokio = { version = "=1.54.1", features = ["rt", "rt-multi-thread", "net", "macros"] }
axum = "=0.7.9"
docker-api = "=0.14.0"
iso8601-duration = "=0.1.0"
libloading = "0.8"
