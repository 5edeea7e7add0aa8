[package]
name = "wasm_sdk_core"
version = "0.1.0"
edition = "2021"
publish = false

[dependencies]
anyhow = "=1.0.104"
wasmtime = { version = "=47.0.4", default-features = false, features = ["runtime", "cranelift", "component-model", "std"] }

[dev-dependencies]
wat = "1"
