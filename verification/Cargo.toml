[package]
name = "ts3_query_api"
version = "0.1.0"
edition = "2021"
publish = false

[dependencies]
bytes = "1"
flume = "0.11"
log = "0.4"
makiko = "*"
tokio = { version = "1", features = ["io-util", "macros", "net", "rt", "rt-multi-thread", "time"] }
