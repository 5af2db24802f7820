[package]
name = "word_guess"
version = "0.1.0"
edition = "2021"
publish = false

[dependencies]
chrono = { version = "0.4", default-features = false, features = ["clock"] }
rand = "0.8"
rand_chacha = "0.3"
rocket = { version = "0.5", features = ["json"] }
