[package]
name = "redux_rs"
version = "0.1.0"
edition = "2021"
publish = false

[dependencies]
tokio = { version = "=1.54.1", default-features = false, features = ["rt", "rt-multi-thread", "sync"] }
async-trait = "=0.1.92"
wasm-bindgen-futures = "0.4"
