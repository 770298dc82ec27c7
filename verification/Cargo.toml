[package]
name = "worldmap"
version = "0.1.0"
edition = "2021"
publish = false

[dependencies]
atomic-counter = "1"
dashmap = "5"
futures = "0.3"
image = { version = "0.24", default-features = false, features = ["png"] }
imageproc = { version = "0.23", default-features = false }
log = "0.4"
mongodb = "2"
noise = { version = "0.8", default-features = false }
poise = "0.5"
pretty_env_logger = "*"
rand = "0.8"
regex = "1"
rusttype = "0.9"
serde = { version = "1", features = ["derive"] }
serde_json = "1"
tokio = { version = "1", features = ["macros", "rt-multi-thread", "time"] }
