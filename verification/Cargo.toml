[package]
name = "validated_scalars"
version = "0.1.0"
edition = "2021"
publish = false

[dependencies]
geohash = "=0.13.2"
pgrx = "=0.12.9"
serde = { version = "=1.0.229", features = ["derive"] }
validator = "=0.21.0"
