[package]
name = "estudent"
version = "0.1.0"
edition = "2021"
publish = false

[dependencies]
bcrypt = "0.15"
chrono = "0.4"
hex = "0.4"
lettre = { version = "0.11", default-features = false, features = ["builder"] }
rand = "0.8"
