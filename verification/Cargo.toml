[package]
name = "docstore"
version = "0.1.0"
edition = "2021"
publish = false

[dependencies]
md5 = "0.7"
serde_json = "1"
serde = { version = "1", features = ["derive"] }
tokio = { version = "1", features = ["fs", "io-util", "io-std", "macros", "rt-multi-thread", "sync"] }
anyhow = "1"
serde-error = "*"
dotenv = "0.15"
