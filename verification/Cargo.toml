[package]
name = "elisabeth"
version = "0.1.0"
edition = "2021"
publish = false

[dependencies]
bincode = "=1.3.3"
concrete-commons = "=0.1.1"
concrete-csprng = "=0.1.7"
rayon = "=1.12.0"
serde = { version = "=1.0.229", features = ["derive"] }
