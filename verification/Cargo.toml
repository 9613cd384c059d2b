[package]
name = "pattern_png"
version = "0.1.0"
edition = "2021"
publish = false

[dependencies]
image = { version = "0.24", default-features = false }
num_cpus = "1"
png = "0.17"
rand = "0.8"
