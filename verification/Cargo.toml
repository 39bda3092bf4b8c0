[package]
name = "swap_watcher"
version = "0.1.0"
edition = "2021"
publish = false

[dependencies]
anyhow = "*"
futures = "*"
hex = "*"
num-bigint = "*"
num-traits = "*"
tokio = { version = "*", features = ["macros", "rt-multi-thread"] }
web3 = { version = "*", default-features = false, features = ["ws-tokio"] }
