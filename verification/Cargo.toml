[package]
name = "array_sort"
version = "0.1.0"
edition = "2021"
publish = false

[dependencies]
arrow = { version = "53", default-features = false }
arrow-array = "53"
arrow-buffer = "53"
arrow-schema = "53"
criterion = "0.5"
tokio = { version = "1", features = ["rt-multi-thread"] }
