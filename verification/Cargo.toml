[package]
name = "puzz"
version = "0.1.0"
edition = "2021"
publish = false

[dependencies]
mime = "0.3"
bytes = "1"
serde = "1"
serde_json = "1"
serde_urlencoded = "0.7"
tokio = { version = "1", features = ["rt", "time", "macros", "net", "io-util"] }
actix-http = "3"
actix-server = "2"
actix-service = "2"
actix-multipart = "0.4"
futures-core = "0.3"
futures-util = "0.3"
http = "0.2"
pin-project-lite = "0.2"
