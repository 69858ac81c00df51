[package]
name = "cg_clif_daemon"
version = "0.1.0"
edition = "2021"
publish = false

[dependencies]
anstream = "=1.0.0"
cranelift-codegen = { version = "=0.135.8", features = ["incremental-cache"] }
cranelift-jit = "=0.135.8"
cranelift-module = "=0.135.8"
cranelift-object = "=0.135.8"
daemonix = "=0.1.0"
libc = "=0.2.191"
postcard = { version = "=1.1.3", features = ["use-std"] }
serde = { version = "=1.0.229", features = ["derive"] }
serde_json = "=1.0.154"
tempfile = "=3.27.0"
