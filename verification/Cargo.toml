[package]
name = "zkmr"
version = "0.1.0"
edition = "2021"
publish = false

[dependencies]
miden-assembly = "=0.7.0"
miden-processor = "=0.7.0"
miden-prover = "=0.7.0"
miden-verifier = "=0.7.0"
base64 = "=0.13.1"
getrandom = "=0.2.17"
serde = { version = "=1.0.229", features = ["derive"] }
serde_json = "=1.0.154"
tokio = { version = "=1.54.1", features = ["macros", "rt-multi-thread", "sync", "fs"] }
warp = "=0.3.7"
anyhow = "=1.0.104"
wasm-bindgen = "=0.2.130"
web-sys = { version = "=0.3.107", features = ["Window", "Document", "Element", "HtmlElement", "HtmlButtonElement", "HtmlInputElement", "HtmlSelectElement", "Node"] }
