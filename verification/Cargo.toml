[package]
name = "reef_metrics_onchain"
version = "0.1.0"
edition = "2021"
publish = false

[dependencies]
sha2 = "0.10"
base64 = "0.22"
time = { version = "0.3", features = ["formatting"] }
serde = "1"
serde_json = "1"
serde_cbor = "0.11"
candid = "0.10"
ic-cdk = "0.13"
ic-cdk-timers = "0.7"
ic-certified-map = "0.4"
