[package]
name = "singleton_finder"
version = "0.1.0"
edition = "2021"
publish = false

[dependencies]
hudhook = "0.6"
tracing = "0.1"
zerocopy = { version = "0.7", features = ["derive"] }
