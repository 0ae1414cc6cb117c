[package]
name = "fractal"
version = "0.1.0"
edition = "2021"
publish = false

[dependencies]
url = "2"
ruma = { version = "*", default-features = false }
rmp-serde = "1"
serde = { version = "1", features = ["derive"] }
jni = "0.21"
thiserror = "2"
zeroize = "1"
tracing = "0.1"
