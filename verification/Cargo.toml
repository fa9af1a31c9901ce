[package]
name = "rust_openai_bot"
version = "0.1.0"
edition = "2021"
publish = false

[dependencies]
regex = "=1.13.1"
rand = "=0.8.8"
teloxide = { version = "=0.12.2", default-features = false, features = ["rustls", "ctrlc_handler"] }
takecell = "=0.1.1"
tokio = { version = "=1.54.1", features = ["macros", "rt-multi-thread", "sync", "fs", "io-util"] }
reqwest = { version = "=0.11.27", default-features = false, features = ["json", "rustls-tls"] }
serde = { version = "=1.0.229", features = ["derive"] }
serde_json = "=1.0.154"
serde_yaml = "=0.9.34"
image = { version = "=0.24.9", default-features = false, features = ["jpeg", "png"] }
uuid = { version = "=1.29.0", features = ["v4"] }
log = "=0.4.35"
fern = "=0.6.2"
chrono = "=0.4.45"
owo-colors = "=3.5.0"
dotenv = "=0.15.0"
tokio-postgres = "0.7"
