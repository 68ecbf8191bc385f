[package]
name = "radix_engine"
version = "0.1.0"
edition = "2021"
publish = false

[dependencies]
hex = "=0.4.3"
lru = "=0.18.5"
wasmi = "=2.0.0"
clap = "=4.6.7"
colored = "=3.1.1"
serde_json = "=1.0.151"
uuid = { version = "=1.27.0", features = ["v4"] }
