[package]
name = "popis"
version = "0.1.0"
edition = "2021"
publish = false

[dependencies]
actix-web = { version = "4", default-features = false, features = ["macros"] }
chrono = "0.4"
env_logger = "*"
futures = "0.3"
lazy_static = "1"
log = "0.4"
postgres = "0.19"
rand = "0.8"
reqwest = "*"
scraper = "*"
serde = { version = "1", features = ["derive"] }
thiserror = "1"
tokio = { version = "1", features = ["macros", "rt-multi-thread", "sync"] }
tokio-postgres = { version = "0.7", features = ["with-chrono-0_4"] }
