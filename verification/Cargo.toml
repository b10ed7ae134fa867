[package]
name = "chat_app"
version = "0.1.0"
edition = "2021"
publish = false

[dependencies]
tokio = { version = "1", features = ["rt-multi-thread", "macros", "net", "io-util", "io-std", "sync"] }
clap = { version = "4", features = ["derive"] }
colored = "2"
