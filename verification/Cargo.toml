[package]
name = "tgfeed"
version = "0.1.0"
edition = "2021"
publish = false

[dependencies]
anyhow = "=1.0.104"
async-trait = "=0.1.92"
config = "=0.15.27"
env_logger = "=0.11.11"
log = "=0.4.34"
rss = "=2.1.2"
rust-tdlib = "=0.4.3"
serde = { version = "=1.0.229", features = ["derive"] }
sqlx = { version = "=0.9.0", default-features = false, features = ["sqlite", "runtime-tokio"] }
tokio = { version = "=1.53.2", features = ["rt-multi-thread", "macros", "sync", "time"] }
warp = { version = "=0.4.3", features = ["server"] }
