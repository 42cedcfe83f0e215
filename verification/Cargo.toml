[package]
name = "stahlnet"
version = "0.1.0"
edition = "2021"
publish = false

[dependencies]
bytes = "=0.4.12"
derive_more = "=0.99.20"
futures = "=0.1.31"
libremexre = { version = "=0.1.12", features = ["futures", "log", "pretty_env_logger"] }
log = "=0.4.35"
rand = "=0.6.5"
structopt = "=0.2.18"
tokio = "=0.1.22"
tokio-signal = "=0.2.9"
tokio-timer = "=0.2.13"
