[package]
name = "poolwatch"
version = "0.1.0"
edition = "2021"
publish = false

[dependencies]
ethers = { version = "2", default-features = false, features = ["ws"] }
rand = "0.8"
dashmap = "5"
tokio = { version = "1", features = ["rt-multi-thread", "macros", "sync", "net", "io-util", "time"] }
tokio-stream = "0.1"
anyhow = "1"
log = "0.4"
fern = { version = "0.6", features = ["colored"] }
chrono = { version = "0.4", default-features = false, features = ["clock"] }
dotenv = "0.15"
