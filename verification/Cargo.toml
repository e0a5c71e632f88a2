[package]
name = "bplustree"
version = "0.1.0"
edition = "2021"
publish = false

[dependencies]
bincode = { version = "0.6", default-features = false, features = ["rustc-serialize"] }
rustc-serialize = "0.3"

[dev-dependencies]
rand = "0.3"
