[package]
name = "std_traits"
version = "0.1.0"
edition = "2021"
publish = false

[dependencies]
exhaustive-map = "*"
rustdoc-types = "*"
serde_json = "*"
