[package]
name = "envelope_flags"
version = "0.1.0"
edition = "2021"
publish = false

[dependencies]
ahash = "0.8"
async-imap = { version = "*", default-features = false, features = ["runtime-tokio"] }
bb8 = "0.9"
dashmap = "6"
futures = "0.3"
tokio = { version = "1", features = ["rt", "rt-multi-thread", "time", "sync", "macros"] }
tracing = "0.1"
