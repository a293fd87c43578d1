[package]
name = "admin_registry"
version = "0.1.0"
edition = "2021"
publish = false

[dependencies]
cosmwasm-schema = "1.5"
cosmwasm-std = "1.5"
cw-storage-plus = "1.2"
cw-utils = "1.0"
