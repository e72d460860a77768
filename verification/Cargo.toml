[package]
name = "torus_life"
version = "0.1.0"
edition = "2021"
publish = false

[dependencies]
anyhow = "1"
clap = { version = "4", features = ["derive"] }
image = { version = "0.24", default-features = false, features = ["png"] }
ndarray = "0.15"
rand = "0.8"
rand_xoshiro = "0.6"
tokio = { version = "1", features = ["macros", "rt-multi-thread", "time"] }
