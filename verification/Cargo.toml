[package]
name = "io_mux"
version = "0.1.0"
edition = "2021"
publish = false

[dependencies]
async-io = "2"
fastrand = "2"
rustix = { version = "0.38", features = ["net"] }
tempfile = "3"

[dev-dependencies]
async-process = "2"
futures-lite = "2"
