[package]
name = "yinchabot"
version = "0.1.0"
edition = "2021"
publish = false

[dependencies]
chrono = "=0.4.45"
directories = "=6.0.0"
dotenv = "=0.15.0"
futures = "=0.3.34"
log = "=0.4.34"
rand = "=0.8.8"
serde = { version = "=1.0.229", features = ["derive"] }
serde_json = "=1.0.151"
teloxide = { version = "=0.5.3", features = ["auto-send"] }
tokio = { version = "=1.53.2", features = ["macros", "rt-multi-thread"] }
tokio-util = { version = "=0.6.10", features = ["codec"] }
