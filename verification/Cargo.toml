[package]
name = "deadman_notifier"
version = "0.1.0"
edition = "2021"
publish = false

[dependencies]
chrono = "=0.4.45"
clap = { version = "*", features = ["derive"] }
grammers-client = "=0.7.0"
rpassword = "*"
rustyline = "*"
serde = { version = "*", features = ["derive"] }
serde_json = "*"
tokio = { version = "*", features = ["rt-multi-thread", "macros", "time", "signal"] }
