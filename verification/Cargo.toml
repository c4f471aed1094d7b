[package]
name = "embedded_gpui"
version = "0.1.0"
edition = "2021"
publish = false

[dependencies]
anyhow = "1"
env_logger = "0.11"
futures = "0.3"
getrandom = "0.3"
image = { version = "0.25", default-features = false }
log = "0.4"
proc-macro2 = "1"
quote = "1"
raw-window-handle = "0.6"
rquickjs = { version = "0.9", features = ["parallel"] }
serde = { version = "1", features = ["derive"] }
serde_json = "1"
smallvec = "1"
syn = { version = "2", features = ["full"] }
uuid = "1"
wasmtime = { version = "36", default-features = false, features = ["component-model", "cranelift", "runtime"] }
wasmtime-wasi = "36"
