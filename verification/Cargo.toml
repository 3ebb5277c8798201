[package]
name = "cgu_notices"
version = "0.1.0"
edition = "2021"
publish = false

[dependencies]
tl = "=0.7.8"
serde = { version = "=1.0.229", features = ["derive"] }
teloxide = { version = "=0.12.2", features = ["macros"] }
takecell = "=0.1.1"
dptree = "=0.3.0"
tokio = { version = "=1.54.1", features = ["full"] }
mongodb = "=2.8.2"
reqwest = "=0.11.27"
dotenv = "=0.15.0"
envy = "=0.4.2"
log = "=0.4.35"
env_logger = "=0.10.2"
chrono = "=0.4.45"
urlencoding = "=2.1.3"
