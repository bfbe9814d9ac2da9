[package]
name = "turbofec"
version = "0.1.0"
edition = "2021"
publish = false

[dependencies]
bitvec = { version = "1", default-features = false }
heapless = { version = "0.8", default-features = false }
