[package]
name = "ingram"
version = "0.1.0"
edition = "2021"
publish = false

[dependencies]
anyhow = "*"
chrono = "*"
clap = { version = "*", features = ["derive"] }
colored = "*"
console = "*"
crossbeam = "*"
csv = "*"
env_logger = "*"
indicatif = "*"
ipnetwork = "*"
log = "*"
md5 = "*"
ping = "*"
rand = "*"
reqwest = { version = "*", default-features = false, features = ["blocking"] }
scraper = "*"
serde = { version = "*", features = ["derive"] }
serde_json = "*"
trust-dns-resolver = "*"
ua_generator = "*"
