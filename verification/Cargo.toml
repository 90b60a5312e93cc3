[package]
name = "siren_tunnel"
version = "0.1.0"
edition = "2021"
publish = false

[dependencies]
base64 = "=0.23.1"
serde_json = "=1.0.151"
uuid = "=1.27.0"
worker = "=0.8.7"
wasm-bindgen-futures = "=0.4.79"
futures-util = "=0.3.34"
tokio = { version = "=1.53.2", default-features = false, features = ["io-util"] }
