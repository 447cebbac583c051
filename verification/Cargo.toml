[package]
name = "rusty_cli"
version = "0.1.0"
edition = "2021"
publish = false

[dependencies]
anyhow = "*"
async-trait = "*"
clap = { version = "*", features = ["derive", "env"] }
colored = "*"
dirs = "*"
eventsource-stream = "*"
futures-util = "*"
reqwest = { version = "*", default-features = false, features = ["json", "stream"] }
rusqlite = { version = "*", features = ["bundled"] }
serde = { version = "*", features = ["derive"] }
serde_json = "*"
time = { version = "*", features = ["formatting"] }
tokio = { version = "*", features = ["rt-multi-thread", "macros", "process", "io-util", "time", "sync", "fs"] }
toml = "*"
tracing-subscriber = "*"
