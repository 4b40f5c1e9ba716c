[package]
name = "geyser_neon"
version = "0.1.0"
edition = "2021"
publish = false

[dependencies]
blake3 = "*"
flume = "*"
tokio = { version = "*", features = ["rt-multi-thread", "macros", "time", "net", "signal", "sync"] }
serde = { version = "*", features = ["derive"] }
serde_json = "*"
chrono = "*"
hyper = { version = "0.14", features = ["server", "http1", "tcp"] }
log = "*"
rdkafka = "*"
