[package]
name = "fromsuper"
version = "0.1.0"
edition = "2021"
publish = false

[dependencies]
syn = { version = "1", features = ["full", "extra-traits"] }
quote = "1"
proc-macro2 = "1"
darling = "0.14"

[dev-dependencies]
anyhow = "1"
