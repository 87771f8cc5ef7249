[package]
name = "canvas_api"
version = "0.1.0"
edition = "2021"
publish = false

[dependencies]
url = "*"
reqwest = { version = "*", default-features = false, features = ["blocking", "json", "rustls-tls"] }
serde = { version = "*", features = ["derive"] }
csv = "*"
dialoguer = "*"
dotenv = "*"
log = "*"
pretty_env_logger = "*"
regex = "*"
chrono = "*"
tokio = { version = "*", features = ["rt-multi-thread", "macros"] }
