[package]
name = "hltas"
version = "0.8.0"
edition = "2021"
publish = false

[dependencies]
cookie-factory = "0.3"
nom = { version = "5.1", default-features = false, features = ["std"] }
