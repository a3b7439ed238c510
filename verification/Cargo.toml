[package]
name = "adinmo"
version = "0.1.0"
edition = "2021"
publish = false

[dependencies]
base64 = "0.21"
rand = "0.8"
serde = { version = "1", features = ["derive"] }
serde_json = "1"
log = "0.4"
dotenv = "0.15"
env_logger = { version = "0.10", default-features = false }
futures = "0.3"
futures-util = "0.3"
tokio = { version = "1", features = ["macros", "rt-multi-thread", "sync", "signal", "net"] }
hyper = { version = "0.14", features = ["server", "http1", "tcp"] }
reqwest = { version = "0.11", default-features = false, features = ["json", "rustls-tls"] }
actix-web = { version = "4", default-features = false }
sqlx = { version = "0.7", default-features = false, features = ["mysql", "runtime-tokio"] }
