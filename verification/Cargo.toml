[package]
name = "cmd2ai"
version = "0.1.0"
edition = "2021"
publish = false

[dependencies]
regex = "=1.13.1"
jsonschema = { version = "=0.58.6", default-features = false }
serde_json = "=1.0.151"
serde = { version = "=1.0.229", features = ["derive"] }
serde_yaml = "=0.9.34"
chrono = { version = "=0.4.45", features = ["serde"] }
dirs = "=7.0.0"
clap = { version = "=4.6.7", features = ["derive"] }
uuid = { version = "=1.27.0", features = ["v4"] }
tokio = { version = "=1.53.2", features = ["rt-multi-thread", "macros", "process", "io-util", "time", "fs"] }

[dev-dependencies]
tempfile = "=3.27.0"
