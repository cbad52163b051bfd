[package]
name = "htmd_cli"
version = "0.1.0"
edition = "2021"
publish = false

[dependencies]
htmd = "*"
toml = "*"
glob = "*"
clap = "*"
tokio = { version = "*", features = ["rt-multi-thread"] }
