[package]
name = "blobstore"
version = "0.1.0"
edition = "2021"
publish = false

[dependencies]
actix-web = "=4.15.0"
blake2 = "=0.11.0"
chrono = { version = "=0.4.45", features = ["serde"] }
env_logger = "=0.11.11"
futures = "=0.3.34"
mime_guess = "=2.0.5"
r2d2 = "=0.8.10"
r2d2_sqlite = { version = "=0.35.0", features = ["bundled"] }
serde = { version = "=1.0.229", features = ["derive"] }
serde_json = "=1.0.151"
uuid = { version = "=1.27.0", features = ["serde"] }
