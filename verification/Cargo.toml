[package]
name = "player_stats"
version = "0.1.0"
edition = "2021"
publish = false

[dependencies]
rand = "0.8"
mongodb = "2"
bson = "2"
uuid = { version = "1", features = ["v4", "serde"] }
serde = { version = "1", features = ["derive"] }
serde_json = "1"
warp = "0.3"
tokio = { version = "1", features = ["full"] }
xtra = { version = "0.5", features = ["with-tokio-1"] }
async-trait = "0.1"
futures = "0.3"
anyhow = "1"
log = "0.4"
env_logger = "0.10"
