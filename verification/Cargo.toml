[package]
name = "tg_ws_proxy"
version = "0.1.0"
edition = "2021"
publish = false

[dependencies]
ctrlc = "3"
hex = "0.4"
hmac = "0.12"
once_cell = "1"
parking_lot = "0.12"
rand = "0.8"
sha2 = "0.10"
tokio = { version = "1", features = ["io-util", "macros", "net", "rt-multi-thread", "sync", "time"] }
tokio-util = "0.7"
