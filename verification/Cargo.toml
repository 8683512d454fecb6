[package]
name = "vpn_handler"
version = "0.1.0"
edition = "2021"
publish = false

[dependencies]
log = "=0.4.34"
public-ip-address = "=0.4.0"
redis = "=1.7.1"
serde = { version = "=1.0.229", features = ["derive"] }
serde_json = "=1.0.151"
sled = "=0.34.7"
tokio = { version = "=1.53.2", features = ["rt", "time"] }
toml = "=1.1.7"
zerotier-central-api = "=1.0.3"
