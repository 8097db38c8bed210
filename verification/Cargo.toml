[package]
name = "meteroid_store"
version = "0.1.0"
edition = "2021"
publish = false

[dependencies]
chrono = { version = "=0.4.45", default-features = false, features = ["std", "clock"] }
rust_decimal = "=1.43.0"
base62 = "*"
nanoid = "*"
argon2 = "*"
