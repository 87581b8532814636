[package]
name = "xilers"
version = "0.1.0"
edition = "2021"
publish = false

[dependencies]
uuid = { version = "*", features = ["v4"] }
serde = { version = "*", features = ["derive"] }
serde_json = "*"
actix = "*"
actix-web = "*"
actix-web-actors = "*"
tokio = { version = "*", features = ["rt-multi-thread", "macros", "time", "sync"] }
reqwest = { version = "*", default-features = false }
chrono = "*"
colored = "*"
sysinfo = "*"
toml = "*"
mongodb = "*"
