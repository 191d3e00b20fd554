[package]
name = "safe_any_map"
version = "0.1.0"
edition = "2021"
publish = false

[dependencies]
thiserror = "1"
