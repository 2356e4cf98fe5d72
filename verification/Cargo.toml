[package]
name = "nukedns"
version = "0.1.0"
edition = "2021"
publish = false

[dependencies]
trust-dns-proto = "*"
trust-dns-client = "*"
tokio = { version = "*", features = ["rt-multi-thread", "net", "time", "macros"] }
futures = "*"
serde = { version = "*", features = ["derive"] }
toml = "*"
log = "*"
log4rs = "*"
dotenv = "*"
