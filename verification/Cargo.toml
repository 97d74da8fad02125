[package]
name = "bundler_codegen"
version = "0.1.0"
edition = "2021"
publish = false

[dependencies]
anyhow = "1"
napi = { version = "2", default-features = false, features = ["napi4", "tokio_rt"] }
napi-derive = "2"
regress = "*"
