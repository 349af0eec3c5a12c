[package]
name = "file_transfer"
version = "0.1.0"
edition = "2021"
publish = false

[dependencies]
chrono = { version = "=0.4.45", default-features = false, features = ["clock", "std"] }
regex = "=1.13.1"
serde = { version = "=1.0.229", features = ["derive"] }
tokio = { version = "=1.54.1", features = ["time"] }
itertools = "=0.15.0"
iced = { version = "=0.14.0", default-features = false, features = ["x11", "tiny-skia", "tokio"] }
