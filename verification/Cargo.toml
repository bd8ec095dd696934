[package]
name = "pgsink"
version = "0.1.0"
edition = "2021"
publish = false

[dependencies]
serde_json = "=1.0.151"
tokio = { version = "1", features = ["macros", "rt-multi-thread", "io-std", "io-util", "time"] }
tokio-postgres = { version = "0.7", features = ["with-serde_json-1"] }
structopt = "0.3"
