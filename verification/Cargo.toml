[package]
name = "trowel"
version = "0.1.0"
edition = "2021"
publish = false

[dependencies]
syn = { version = "=2.0.119", features = ["full"] }
chrono = { version = "=0.4.45", default-features = false, features = ["std", "clock"] }
comrak = { version = "=0.44.0", default-features = false }
clap = { version = "=4.6.7", features = ["derive"] }
