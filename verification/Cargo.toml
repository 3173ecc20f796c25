[package]
name = "curves"
version = "0.1.0"
edition = "2021"
publish = false

[dependencies]
bdays = "=0.1.4"
chrono = { version = "=0.4.45", default-features = false }
