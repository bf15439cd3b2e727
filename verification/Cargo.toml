[package]
name = "ios_device_list"
version = "0.1.0"
edition = "2021"
publish = false

[dependencies]
bossy = "*"
log = "*"
serde_json = "*"
