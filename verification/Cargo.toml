[package]
name = "load64"
version = "0.1.0"
edition = "2021"
publish = false

[dependencies]
uuid = { version = "=1.29.0", features = ["v4"] }
serde = { version = "=1.0.229", features = ["derive"] }
toml = "=0.8.23"
clap = { version = "=4.6.7", features = ["derive"] }
async-std = { version = "=1.13.2", features = ["unstable"] }
gilrs = "=0.11.2"
iced = { version = "=0.13.1", default-features = false }
