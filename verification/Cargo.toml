[package]
name = "xs_notify"
version = "0.1.0"
edition = "2021"
publish = false

[dependencies]
anyhow = "*"
clap = { version = "*", features = ["derive"] }
directories = "*"
log = "*"
serde = { version = "*", features = ["derive"] }
tokio = { version = "*", features = ["rt-multi-thread", "macros", "sync", "time", "net", "io-util", "io-std", "fs"] }
toml = "*"
twelf = { version = "*", features = ["toml", "env", "clap"] }
