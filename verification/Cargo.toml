[package]
name = "ripgrep-napi"
version = "1.0.0"
edition = "2021"
publish = false

[dependencies]
grep = "0.3"
grep-searcher = "0.1"
ignore = "0.4"
regex = "1"
napi = { version = "2", features = ["async"] }
napi-derive = "2"
