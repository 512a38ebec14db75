[package]
name = "stdb_unreal"
version = "0.1.0"
edition = "2021"
publish = false

[dependencies]
serde = { version = "1", features = ["derive"] }
serde_json = "1"
rand = "0.8"
once_cell = "1"
log = "0.4"
lazy_static = "1"
