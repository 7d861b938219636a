[package]
name = "minilz4"
version = "0.1.0"
edition = "2021"
publish = false

[dependencies]
lz4_flex = "=0.14.0"
twox-hash = { version = "=2.1.5", default-features = false, features = ["std", "xxhash32"] }
