[package]
name = "unityfs_view"
version = "0.1.0"
edition = "2021"
publish = false

[dependencies]
image = { version = "=0.23.14", default-features = false, features = ["dxt"] }
png = "=0.16.8"
texture2ddecoder = "*"
