[package]
name = "emissary"
version = "0.1.0"
edition = "2021"
publish = false

[dependencies]
actix-web = "4"
awc = "3"
clap = { version = "4", features = ["derive"] }
futures-util = "0.3"
serde = { version = "1", features = ["derive"] }
toml = "*"
tracing = "0.1"
tracing-appender = "0.2"
tracing-subscriber = "0.3"
url = "2"
uuid = { version = "1", features = ["v4"] }

[dev-dependencies]
regex = "1"
serde_json = "1"
