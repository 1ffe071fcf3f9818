[package]
name = "fastembed"
version = "0.1.0"
edition = "2021"
publish = false

[dependencies]
anyhow = "*"
ndarray = "=0.16.1"
rayon = "*"
hf-hub = "=0.3.2"
ort = { version = "=2.0.0-rc.13", default-features = false, features = ["load-dynamic", "ndarray"] }
