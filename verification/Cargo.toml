[package]
name = "keeper_core"
version = "0.1.0"
edition = "2021"
publish = false

[dependencies]
pyth-lazer-protocol = "0.47"
solana-sdk = { version = "=2.3.1", default-features = false, features = ["full"] }
tokio = { version = "=1.54.1", features = ["rt-multi-thread", "macros", "sync", "time"] }
futures-util = "=0.3.34"
log = "=0.4.35"
clap = { version = "=4.6.7", features = ["derive", "env"] }
dotenv = "0.15"
env_logger = { version = "=0.11.11", default-features = false }
