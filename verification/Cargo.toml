[package]
name = "maccy_kde"
version = "0.1.0"
edition = "2021"
publish = false

[dependencies]
regex = "=1.13.1"
fuzzy-matcher = "=0.3.7"
chrono = "=0.4.45"
serde = { version = "=1.0.229", features = ["derive"] }
serde_json = "=1.0.154"
tokio = { version = "=1.54.1", features = ["rt", "rt-multi-thread", "net", "io-util", "time", "macros", "sync"] }
rusqlite = { version = "=0.41.1", features = ["bundled"] }
uuid = { version = "=1.29.0", features = ["v4"] }
image = { version = "=0.25.10", default-features = false, features = ["png", "jpeg"] }
log = "=0.4.35"
env_logger = "=0.11.11"
enigo = "=0.6.1"
wayland-clipboard-listener = "=0.6.1"
