[package]
name = "riscv_vm"
version = "0.1.0"
edition = "2021"
publish = false

[dependencies]
bincode = "1"
console_error_panic_hook = "0.1"
elf = "0.7"
futures = "0.3"
js-sys = "0.3"
libp2p = { version = "0.54", features = ["tokio", "gossipsub", "identify", "noise", "ping", "relay", "tcp", "yamux", "quic", "macros"] }
log = "0.4"
lru = "0.12"
serde = { version = "1", features = ["derive"] }
serde_bytes = "0.11"
thiserror = "1"
tokio = { version = "1", features = ["rt", "rt-multi-thread", "time", "macros"] }
wasm-bindgen = "0.2"
wasm-bindgen-futures = "0.4"
wasm-encoder = "0.219"
web-sys = { version = "0.3", features = ["Worker", "WorkerOptions", "WorkerType", "MessageEvent", "ErrorEvent", "console"] }
