[package]
name = "tactics_core"
version = "0.1.0"
edition = "2021"
publish = false

[dependencies]
rand = "=0.7.3"
amethyst = { version = "0.15", default-features = false, features = ["renderer", "empty"] }
