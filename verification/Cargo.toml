[package]
name = "triagebot"
version = "0.1.0"
edition = "2021"
publish = false

[dependencies]
anyhow = "1"
async-trait = "0.1"
chrono = "0.4"
cron = "0.12"
dotenv = "0.15"
futures = "0.3"
hmac = "0.12"
hyper = { version = "0.14", features = ["full"] }
route-recognizer = "0.3"
serde_json = "1"
sha1 = "0.10"
tokio = { version = "1", features = ["full"] }
tracing = "0.1"
tracing-subscriber = { version = "0.3", features = ["env-filter"] }
url = "2"
uuid = { version = "1", features = ["v4"] }
