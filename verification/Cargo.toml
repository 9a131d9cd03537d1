[package]
name = "cracktorio_bot"
version = "0.1.0"
edition = "2021"
publish = false

[dependencies]
scraper = "=0.29.0"
feed-rs = "=3.0.0"
tokio = { version = "=1.54.1", features = ["full"] }
reqwest = "=0.13.5"
teloxide = { version = "=0.17.0", features = ["macros"] }
takecell = "<0.1.2"
rcon = { version = "=0.6.0", features = ["rt-tokio"] }
async-log-watcher = "=0.0.1"
kube = { version = "=5.0.0", features = ["client"] }
k8s-openapi = { version = "=0.29.0", features = ["latest"] }
futures = "=0.3.34"
savefile = "=0.20.6"
savefile-derive = "=0.20.6"
clap = { version = "=4.6.7", features = ["derive", "env"] }
dotenv = "=0.15.0"
color-eyre = "=0.6.5"
tracing = "=0.1.44"
tracing-subscriber = "=0.3.23"
