[package]
name = "wind"
version = "0.1.0"
edition = "2021"
publish = false

[dependencies]
object = { version = "0.36", default-features = false, features = ["write"] }
thiserror = "1"
xxhash-rust = { version = "0.8", features = ["xxh3"] }
