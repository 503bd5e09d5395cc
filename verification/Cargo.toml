[package]
name = "mudu_kernel"
version = "0.1.0"
edition = "2021"
publish = false

[dependencies]
rand = "=0.9.5"
roaring = "=0.10.12"
mcslock = "=0.4.2"
serde = { version = "=1.0.229", features = ["derive"] }
scc = "3"
