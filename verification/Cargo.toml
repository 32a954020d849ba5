[package]
name = "janu-flow"
version = "0.1.0"
edition = "2021"
publish = false

[dependencies]
async-ctrlc = { version = "1.2", features = ["stream"] }
async-std = { version = "1.9", features = ["attributes", "unstable"] }
async-trait = "0.1"
bincode = "1"
env_logger = "0.9"
flume = "0.10"
futures = "0.3"
git-version = "0.3"
jrpc = "*"
libloading = "0.7"
log = "0.4"
pin-project-lite = "0.2"
serde = { version = "1", features = ["derive"] }
serde_cbor = "0.11"
serde_json = "1"
serde_yaml = "0.8"
structopt = "0.3"
uhlc = "0.4"
uuid = { version = "0.8", features = ["serde", "v4"] }
