[package]
name = "allsorts"
version = "0.1.0"
edition = "2021"
publish = false

[dependencies]
rustc-hash = "=1.1.0"
tinyvec = { version = "=1.13.3", features = ["alloc"] }
unicode-joining-type = "=1.0.0"

[dev-dependencies]
byteorder = "=1.5.0"
