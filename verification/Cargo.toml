[package]
name = "galactic"
version = "0.8.0"
edition = "2021"
publish = false

[dependencies]
anyhow = "=1.0.104"
chrono = "=0.4.45"
clap-verbosity-flag = "=0.3.2"
env_logger = "=0.8.4"
indicatif = "0.17"
log = "=0.4.35"
reqwest = { version = "=0.11.27", default-features = false, features = ["blocking", "cookies", "json"] }
scraper = "=0.12.0"
serde = { version = "=1.0.229", features = ["derive"] }
serde_json = "=1.0.154"
structopt = "=0.3.26"
