[package]
name = "sn_node"
version = "0.1.0"
edition = "2021"
publish = false

[dependencies]
bincode = "=1.3.3"
ed25519-dalek = "=1.0.1"
futures = "=0.3.34"
hex_fmt = "=0.3.0"
log = "=0.4.34"
rmp = "=0.8.10"
safe-nd = "=0.11.7"
serde = { version = "=1.0.229", features = ["derive"] }
sn_data_types = "=0.18.4"
sn_messaging = "=26.0.0"
threshold_crypto = "=0.4.0"
xor_name = "=1.3.0"
