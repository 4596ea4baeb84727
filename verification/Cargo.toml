[package]
name = "keep_a_changelog"
version = "0.1.0"
edition = "2021"
publish = false

[dependencies]
chrono = { version = "0.4", default-features = false, features = ["std"] }
eyre = "0.6"
regex = "1"
semver = "1"
