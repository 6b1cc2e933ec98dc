[package]
name = "launch_core"
version = "0.1.0"
edition = "2021"
publish = false

[dependencies]
md5 = "=0.7.0"
rand = "=0.7.3"
path-slash = "=0.1.5"
url = "=2.5.8"
uuid = { version = "=0.8.2", features = ["serde"] }
serde = { version = "=1.0.229", features = ["derive"] }
serde_json = "=1.0.154"
tokio = { version = "=1.54.1", features = ["rt-multi-thread", "macros", "sync", "net"] }
warp = { version = "=0.3.7", default-features = false, features = ["websocket"] }
tokio-tungstenite = "=0.21.0"
futures = "=0.3.34"
reqwest = { version = "=0.11.27", default-features = false, features = ["json"] }
walkdir = "=2.5.0"
jni = "=0.19.0"
log = "=0.4.34"
env_logger = "=0.9.3"
anyhow = "=1.0.104"
async-trait = "=0.1.92"
syn = { version = "=1.0.109", features = ["full"] }
quote = "=1.0.47"
