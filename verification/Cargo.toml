[package]
name = "convex_backend"
version = "0.1.0"
edition = "2021"
publish = false

[dependencies]
anyhow = "=1.0.104"
async-trait = "=0.1.92"
axum = { version = "=0.8.9", default-features = false, features = ["http1", "tokio"] }
base64 = "=0.13.1"
bytes = "=1.12.1"
derive_more = { version = "=2.1.1", features = ["from", "into"] }
futures = "=0.3.34"
home = "=0.5.12"
libc = "=0.2.191"
native-tls = { version = "=0.2.18", features = ["alpn"] }
pollster = "=0.4.0"
proc-macro2 = "=1.0.107"
quote = "=1.0.47"
rand = "=0.9.5"
rand_chacha = "=0.10.0"
rand_core = "=0.10.1"
reqwest = { version = "=0.12.28", default-features = false, features = ["http2", "json", "native-tls", "stream"] }
serde = { version = "=1.0.229", features = ["derive"] }
serde_json = { version = "=1.0.154", features = ["float_roundtrip", "preserve_order"] }
sha2 = "=0.10.9"
syn = { version = "=2.0.119", features = ["extra-traits", "full"] }
tempfile = "=3.27.0"
tokio = { version = "=1.54.1", features = ["macros", "net", "process", "rt-multi-thread", "sync", "time"] }
tokio-stream = "=0.1.19"
tracing = "=0.1.44"
url = "=2.5.8"
uuid = { version = "=1.29.0", features = ["v4"] }
wasmtime = { version = "=47.0.4", default-features = false, features = ["async", "cranelift", "gc", "gc-drc", "runtime", "std", "wat"] }
wasmtime-wasi = { version = "=47.0.4", default-features = false, features = ["p1"] }
wat = { version = "=1.263.0", default-features = false }
