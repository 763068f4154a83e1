[package]
name = "proxy"
version = "0.1.0"
edition = "2021"
publish = false

[dependencies]
rsa = "0.9"
rand = "0.8"
tokio = { version = "1", features = ["full"] }
sqlx = { version = "0.8", default-features = false, features = ["sqlite", "runtime-tokio"] }
dotenv = "0.15"
