[package]
name = "wifi_backend"
version = "0.1.0"
edition = "2021"
publish = false

[dependencies]
neli = "0.4.4"
nl80211 = "0.0.2"
