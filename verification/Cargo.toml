[package]
name = "pkcs11_bridge"
version = "0.1.0"
edition = "2021"
publish = false

[dependencies]
anyhow = "1"
openssl = { version = "0.10", features = ["vendored"] }
wasmtime = { version = "37", default-features = false, features = ["component-model", "cranelift", "runtime", "std"] }
wasmtime-wasi = { version = "37", default-features = false, features = ["p2"] }
wit-bindgen = "0.44"
