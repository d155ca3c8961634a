[package]
name = "cc1101"
version = "0.1.0"
edition = "2021"
publish = false

[dependencies]
embedded-hal = "1"
nb = "1"
tokio = { version = "1", features = ["time", "rt"] }
