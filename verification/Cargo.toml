[package]
name = "omnisync"
version = "0.1.0"
edition = "2021"
publish = false

[dependencies]
actix-cors = "0.7"
actix-rt = "2"
actix-web = { version = "4", default-features = false, features = ["macros"] }
async-stream = "0.3"
chrono = "0.4"
env_logger = "0.11"
grammers-client = "0.8"
grammers-tl-types = "0.8"
log = "0.4"
rand = "0.8"
reqwest = { version = "0.12", default-features = false, features = ["json", "rustls-tls"] }
serde = { version = "1", features = ["derive"] }
serde_json = "1"
tokio = { version = "1", features = ["full"] }
url = "2"
urlencoding = "2"
