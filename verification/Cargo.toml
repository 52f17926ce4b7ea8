[package]
name = "vertex_batch"
version = "0.1.0"
edition = "2021"
publish = false

[dependencies]
radsort = "0.1"
iyes_progress = { version = "0.11", default-features = false }
fastapprox = "0.3"
fastrand = "2"
float_next_after = "1"
