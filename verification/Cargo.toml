[package]
name = "zenoh_backend_redb"
version = "0.1.0"
edition = "2021"
publish = false

[dependencies]
redb = "*"

[dev-dependencies]
tempfile = "*"
