[package]
name = "serial_bridge"
version = "0.1.0"
edition = "2021"
publish = false

[dependencies]
clap = { version = "4", features = ["derive"] }
serialport = { version = "4", default-features = false }
tokio = { version = "1", features = ["io-util", "macros", "net", "rt-multi-thread"] }
