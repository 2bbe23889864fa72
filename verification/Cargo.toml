[package]
name = "wws_runner"
version = "0.1.0"
edition = "2021"
publish = false

[dependencies]
wasmtime = "=48.0.5"
wasmtime-wasi = "=48.0.5"
actix-web = "=4.15.0"

[dev-dependencies]
serde_json = "=1.0.151"
