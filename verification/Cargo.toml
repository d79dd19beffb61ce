[package]
name = "balancebeam"
version = "0.1.0"
edition = "2021"
publish = false

[dependencies]
rand = "=0.10.3"
tokio = { version = "=1.53.2", features = ["rt-multi-thread", "net", "time", "io-util", "macros", "sync"] }
clap = { version = "=4.6.7", features = ["derive"] }
http = "=1.5.0"
log = "=0.4.34"
pretty_env_logger = "=0.5.0"
