[package]
name = "component_async_demo"
version = "0.1.0"
edition = "2021"
publish = false

[dependencies]
anyhow = "=1.0.104"
bytes = "=1.12.1"
clap = { version = "=4.6.7", features = ["derive"] }
flate2 = "=1.1.10"
futures = "=0.3.34"
http = "=1.5.0"
http-body = "=1.1.0"
http-body-util = "=0.1.5"
tokio = { version = "=1.54.1", features = ["fs", "macros", "rt-multi-thread", "time"] }
wasmtime = { version = "=47.0.4", features = ["component-model-async"] }
wasmtime-wasi = { version = "=47.0.4", features = ["p3"] }
wasmtime-wasi-http = { version = "=47.0.4", features = ["p3"] }
wit-bindgen = { version = "=0.63.0", features = ["async-spawn"] }
