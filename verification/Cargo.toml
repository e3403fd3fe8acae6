[package]
name = "rustyroad"
version = "0.1.0"
edition = "2021"
publish = false

[dependencies]
clap = { version = "=4.6.7", features = ["derive"] }
env_logger = "=0.11.11"
epub-builder = "=0.8.3"
eyre = "=0.6.14"
futures = "=0.3.34"
log = "=0.4.34"
reqwest = "=0.13.5"
scraper = "=0.29.0"
tokio = { version = "=1.54.1", features = ["macros", "rt-multi-thread"] }
url = "=2.5.8"

[dev-dependencies]
zip = { version = "=6.0.0", default-features = false, features = ["deflate"] }
