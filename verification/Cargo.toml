[package]
name = "tsunami"
version = "0.1.0"
edition = "2021"
publish = false

[dependencies]
atoi_radix10 = "*"
rand = "0.9"
tokio = { version = "1", features = ["rt-multi-thread", "macros", "net", "io-util", "time"] }
clap = { version = "4", features = ["derive"] }
clap-serde-derive = "*"
serde = { version = "1", features = ["derive"] }
colored = "*"
dirs = "*"
toml = "*"
